//! Plan optimisation for compiled execution: which rules apply at each
//! level, the speed-up they promise, vectorisation plans and compiler hints.

use vstd::prelude::*;
use crate::jit::compiler::OptimizationLevel;
use crate::jit::plan::{LogicalPlan, is_join};
use crate::jit::vectorizer::{SIMDVectorizer, assumed_capabilities};
use crate::text::{contains_text, owned, str_equal, strings_contain, views};

verus! {

/// How data is laid out in memory.
#[derive(Debug)]
pub enum MemoryLayout {
    RowMajor,
    ColumnMajor,
    Hybrid,
    Custom(Vec<String>),
}

/// How data is prefetched.
#[derive(Debug)]
pub enum PrefetchingStrategy {
    /// No prefetching.
    Disabled,
    Sequential,
    Strided(usize),
    Custom(Vec<String>),
}

/// How a query is to be vectorised.
#[derive(Debug)]
pub struct VectorizationPlan {
    pub vectorizable_operations: Vec<String>,
    pub vector_width: usize,
    pub memory_layout: MemoryLayout,
    pub prefetching_strategy: PrefetchingStrategy,
}

/// A speed-up factor as a fraction.
#[derive(Debug, Clone, Copy, PartialEq, Eq, Structural)]
pub struct Speedup {
    pub numerator: u64,
    pub denominator: u64,
}

/// The result of optimising a plan.  The rules rewrite nothing, so the plan
/// itself stays as it was.
#[derive(Debug)]
pub struct OptimizationResult {
    pub applied_optimizations: Vec<String>,
    pub expected_speedup: Speedup,
    pub compilation_hints: Vec<String>,
    pub vectorization_plan: VectorizationPlan,
}

/// Counters of optimisation work; they wrap at `u64::MAX`.
#[derive(Debug, Clone, Copy, PartialEq, Eq, Structural)]
pub struct OptimizationStats {
    pub total_optimizations: u64,
    pub successful_optimizations: u64,
    pub failed_optimizations: u64,
    pub vectorization_attempts: u64,
    pub vectorization_successes: u64,
}

/// What analysing a plan finds.  Costs are in thousandths of a unit,
/// rounded down: ten units per operation, divided by one plus half the
/// number of vectorisable operations.
#[derive(Debug)]
pub struct QueryAnalysis {
    pub total_operations: usize,
    pub vectorizable_operations: usize,
    pub estimated_baseline_cost: u64,
    pub estimated_optimized_cost: u64,
    pub optimization_opportunities: Vec<String>,
}

/// The rules applied at each level, in order.
pub open spec fn rules_for_level(level: OptimizationLevel) -> Seq<Seq<char>> {
    match level {
        OptimizationLevel::Disabled => Seq::empty(),
        OptimizationLevel::Basic => seq!["constant_folding"@, "predicate_pushdown"@],
        OptimizationLevel::Standard => seq![
            "constant_folding"@,
            "predicate_pushdown"@,
            "join_order"@,
            "index_selection"@,
        ],
        OptimizationLevel::Aggressive | OptimizationLevel::Maximum => seq![
            "constant_folding"@,
            "predicate_pushdown"@,
            "join_order"@,
            "index_selection"@,
            "common_subexpression"@,
            "vectorization"@,
        ],
    }
}

/// Whether a rule applies to a plan: predicate pushdown to filters, join
/// ordering to joins, index selection to sequential scans, the others to
/// every plan.
pub open spec fn rule_applicable(rule: Seq<char>, p: LogicalPlan) -> bool {
    if rule == "predicate_pushdown"@ {
        p is Filter
    } else if rule == "join_order"@ {
        is_join(p)
    } else if rule == "index_selection"@ {
        p is SeqScan
    } else {
        true
    }
}

/// A rule's expected speed-up, in tenths.
pub open spec fn rule_speedup_tenths(rule: Seq<char>) -> nat {
    if rule == "predicate_pushdown"@ {
        13
    } else if rule == "join_order"@ {
        20
    } else if rule == "vectorization"@ {
        40
    } else if rule == "constant_folding"@ {
        11
    } else if rule == "common_subexpression"@ {
        15
    } else if rule == "index_selection"@ {
        100
    } else {
        10
    }
}

/// The rules of `rules` that apply to the plan, in order.
pub open spec fn applied_rules(rules: Seq<Seq<char>>, p: LogicalPlan) -> Seq<Seq<char>>
    decreases rules.len(),
{
    if rules.len() == 0 {
        Seq::empty()
    } else {
        let prev = applied_rules(rules.drop_last(), p);
        if rule_applicable(rules.last(), p) {
            prev.push(rules.last())
        } else {
            prev
        }
    }
}

/// The product of the rules' speed-ups in tenths.
pub open spec fn speedup_numerator(rules: Seq<Seq<char>>) -> nat
    decreases rules.len(),
{
    if rules.len() == 0 {
        1
    } else {
        speedup_numerator(rules.drop_last()) * rule_speedup_tenths(rules.last())
    }
}

/// Ten to the power of the number of rules.
pub open spec fn speedup_denominator(rules: Seq<Seq<char>>) -> nat
    decreases rules.len(),
{
    if rules.len() == 0 {
        1
    } else {
        speedup_denominator(rules.drop_last()) * 10
    }
}

/// The operations of a plan that can be vectorised, outermost first.
pub open spec fn vectorizable_ops(p: LogicalPlan) -> Seq<Seq<char>>
    decreases p,
{
    match p {
        LogicalPlan::SeqScan { .. } => seq!["sequential_scan"@, "column_scan"@],
        LogicalPlan::IndexScan { .. } => seq!["index_scan"@],
        LogicalPlan::Filter { input, .. } => seq!["filter_operation"@] + vectorizable_ops(*input),
        LogicalPlan::NestedLoopJoin { left, right, .. } => seq!["join_operation"@] + vectorizable_ops(*left)
            + vectorizable_ops(*right),
        LogicalPlan::HashJoin { left, right, .. } => seq!["join_operation"@] + vectorizable_ops(*left)
            + vectorizable_ops(*right),
        LogicalPlan::GroupBy { input, .. } => seq!["aggregation"@] + vectorizable_ops(*input),
        LogicalPlan::Other { .. } => Seq::empty(),
    }
}

/// The number of filters in a plan, below filters, joins and groupings.
pub open spec fn filter_count(p: LogicalPlan) -> nat
    decreases p,
{
    match p {
        LogicalPlan::Filter { input, .. } => 1 + filter_count(*input),
        LogicalPlan::NestedLoopJoin { left, right, .. } => filter_count(*left) + filter_count(*right),
        LogicalPlan::HashJoin { left, right, .. } => filter_count(*left) + filter_count(*right),
        LogicalPlan::GroupBy { input, .. } => filter_count(*input),
        _ => 0,
    }
}

/// The number of operations in a plan.
pub open spec fn node_count(p: LogicalPlan) -> nat
    decreases p,
{
    match p {
        LogicalPlan::Filter { input, .. } => 1 + node_count(*input),
        LogicalPlan::NestedLoopJoin { left, right, .. } => 1 + node_count(*left) + node_count(*right),
        LogicalPlan::HashJoin { left, right, .. } => 1 + node_count(*left) + node_count(*right),
        LogicalPlan::GroupBy { input, .. } => 1 + node_count(*input),
        _ => 1,
    }
}

/// The hints each applied rule gives.
pub open spec fn rule_hints(rules: Seq<Seq<char>>) -> Seq<Seq<char>>
    decreases rules.len(),
{
    if rules.len() == 0 {
        Seq::empty()
    } else {
        let r = rules.last();
        rule_hints(rules.drop_last()) + (if r == "vectorization"@ {
            seq!["enable_simd"@, "unroll_loops"@]
        } else if r == "predicate_pushdown"@ {
            seq!["inline_predicates"@]
        } else if r == "join_order"@ {
            seq!["optimize_memory_layout"@]
        } else {
            Seq::empty()
        })
    }
}

/// The compiler hints for a plan: those of the applied rules, then
/// `branch_prediction_hints` for more than three filters, then the hints for
/// large joins (which every plan is assumed to have).
pub open spec fn compilation_hints(p: LogicalPlan, applied: Seq<Seq<char>>) -> Seq<Seq<char>> {
    rule_hints(applied) + (if filter_count(p) > 3 {
        seq!["branch_prediction_hints"@]
    } else {
        Seq::empty()
    }) + seq!["cache_aware_layout"@, "prefetch_data"@]
}

/// The operations counted by analysis: each node on the path through joins,
/// whose inputs are analysed in turn.
pub open spec fn analyzed_operations(p: LogicalPlan) -> nat
    decreases p,
{
    match p {
        LogicalPlan::NestedLoopJoin { left, right, .. } => 1 + analyzed_operations(*left) + analyzed_operations(
            *right,
        ),
        LogicalPlan::HashJoin { left, right, .. } => 1 + analyzed_operations(*left) + analyzed_operations(*right),
        _ => 1,
    }
}

/// The vectorisable operations analysis finds.
pub open spec fn analyzed_vectorizable(p: LogicalPlan) -> nat
    decreases p,
{
    match p {
        LogicalPlan::NestedLoopJoin { left, right, .. } => analyzed_vectorizable(*left) + analyzed_vectorizable(
            *right,
        ),
        LogicalPlan::HashJoin { left, right, .. } => analyzed_vectorizable(*left) + analyzed_vectorizable(*right),
        LogicalPlan::Other { .. } => 0,
        _ => 1,
    }
}

/// The optimisation opportunities analysis finds, in visiting order.
pub open spec fn analyzed_opportunities(p: LogicalPlan) -> Seq<Seq<char>>
    decreases p,
{
    match p {
        LogicalPlan::SeqScan { .. } | LogicalPlan::IndexScan { .. } => seq!["scan_vectorization"@],
        LogicalPlan::Filter { .. } => seq!["filter_vectorization"@],
        LogicalPlan::GroupBy { .. } => seq!["aggregation_vectorization"@],
        LogicalPlan::NestedLoopJoin { left, right, .. } => seq!["join_optimization"@] + analyzed_opportunities(
            *left,
        ) + analyzed_opportunities(*right),
        LogicalPlan::HashJoin { left, right, .. } => seq!["join_optimization"@] + analyzed_opportunities(*left)
            + analyzed_opportunities(*right),
        LogicalPlan::Other { .. } => Seq::empty(),
    }
}

/// Optimises plans for compiled execution.
#[derive(Debug)]
pub struct QueryOptimizer {
    vectorizer: SIMDVectorizer,
    stats: OptimizationStats,
}

impl QueryOptimizer {
    /// The counters.
    pub closed spec fn statistics(&self) -> OptimizationStats {
        self.stats
    }

    /// The vectoriser's capabilities are the assumed ones.
    pub closed spec fn wf(&self) -> bool {
        assumed_capabilities(self.vectorizer.caps())
    }

    /// An optimiser with zero counters.
    pub fn new() -> (r: Self)
        ensures
            r.wf(),
            r.statistics() == (OptimizationStats {
                total_optimizations: 0,
                successful_optimizations: 0,
                failed_optimizations: 0,
                vectorization_attempts: 0,
                vectorization_successes: 0,
            }),
    {
        QueryOptimizer {
            vectorizer: SIMDVectorizer::new(),
            stats: OptimizationStats {
                total_optimizations: 0,
                successful_optimizations: 0,
                failed_optimizations: 0,
                vectorization_attempts: 0,
                vectorization_successes: 0,
            },
        }
    }

    /// The rules applied at a level, in order.
    pub fn get_rules_for_level(&self, level: OptimizationLevel) -> (r: Vec<String>)
        ensures
            views(r@) == rules_for_level(level),
    {
        let r = match level {
            OptimizationLevel::Disabled => Vec::new(),
            OptimizationLevel::Basic => vec![owned("constant_folding"), owned("predicate_pushdown")],
            OptimizationLevel::Standard => vec![
                owned("constant_folding"),
                owned("predicate_pushdown"),
                owned("join_order"),
                owned("index_selection"),
            ],
            OptimizationLevel::Aggressive | OptimizationLevel::Maximum => vec![
                owned("constant_folding"),
                owned("predicate_pushdown"),
                owned("join_order"),
                owned("index_selection"),
                owned("common_subexpression"),
                owned("vectorization"),
            ],
        };
        assert(views(r@) =~= rules_for_level(level));
        r
    }

    /// Optimises a plan at a level: the rules of the level that apply, their
    /// combined speed-up, the vectorisation plan and the compiler hints.  An
    /// optimisation counts as successful when some rule applied.
    pub fn optimize(&mut self, plan: &LogicalPlan, optimization_level: OptimizationLevel) -> (r: OptimizationResult)
        requires
            old(self).wf(),
        ensures
            final(self).wf(),
            views(r.applied_optimizations@) == applied_rules(rules_for_level(optimization_level), *plan),
            r.expected_speedup.numerator == speedup_numerator(applied_rules(rules_for_level(optimization_level), *plan)),
            r.expected_speedup.denominator == speedup_denominator(
                applied_rules(rules_for_level(optimization_level), *plan),
            ),
            views(r.compilation_hints@) == compilation_hints(
                *plan,
                applied_rules(rules_for_level(optimization_level), *plan),
            ),
            vectorization_plan_for(r.vectorization_plan, *plan),
            final(self).statistics().total_optimizations == old(self).statistics().total_optimizations.wrapping_add(1),
            applied_rules(rules_for_level(optimization_level), *plan).len() > 0 ==> final(self).statistics()
                == (OptimizationStats {
                total_optimizations: old(self).statistics().total_optimizations.wrapping_add(1),
                successful_optimizations: old(self).statistics().successful_optimizations.wrapping_add(1),
                ..old(self).statistics()
            }),
            applied_rules(rules_for_level(optimization_level), *plan).len() == 0 ==> final(self).statistics()
                == (OptimizationStats {
                total_optimizations: old(self).statistics().total_optimizations.wrapping_add(1),
                failed_optimizations: old(self).statistics().failed_optimizations.wrapping_add(1),
                ..old(self).statistics()
            }),
    {
        self.stats.total_optimizations = self.stats.total_optimizations.wrapping_add(1);
        let rules = self.get_rules_for_level(optimization_level);
        let ghost names = rules_for_level(optimization_level);
        let mut applied: Vec<String> = Vec::new();
        let mut numerator: u64 = 1;
        let mut denominator: u64 = 1;
        let mut i: usize = 0;
        assert(names.subrange(0, 0) =~= Seq::<Seq<char>>::empty());
        assert(rules@.len() <= 6) by {
            assert(views(rules@).len() == rules@.len());
        }
        while i < rules.len()
            invariant
                i <= rules@.len(),
                rules@.len() <= 6,
                views(rules@) == names,
                views(applied@) == applied_rules(names.subrange(0, i as int), *plan),
                applied@.len() <= i,
                numerator == speedup_numerator(applied_rules(names.subrange(0, i as int), *plan)),
                denominator == speedup_denominator(applied_rules(names.subrange(0, i as int), *plan)),
                numerator <= pow100(applied@.len() as nat),
                denominator <= pow10(applied@.len() as nat),
            decreases rules@.len() - i,
        {
            let name = &rules[i];
            let ghost pre = names.subrange(0, i as int);
            let ghost next = names.subrange(0, i + 1);
            assert(next.drop_last() =~= pre);
            assert(next.last() == name@);
            if rule_applies(name.as_str(), plan) {
                let tenths = speedup_tenths(name.as_str());
                proof {
                    lemma_pow_bounds(applied@.len() as nat);
                    let p = pow100(applied@.len() as nat);
                    assert(numerator * tenths <= p * 100) by (nonlinear_arith)
                        requires
                            numerator <= p,
                            tenths <= 100,
                    ;
                }
                numerator = numerator * tenths;
                denominator = denominator * 10;
                let ghost before = views(applied@);
                let ghost prev_rules = applied_rules(pre, *plan);
                applied.push(name.clone());
                assert(views(applied@) =~= before.push(name@));
                assert(prev_rules.push(name@).drop_last() =~= prev_rules);
                proof {
                    lemma_pow_step(applied@.len() as nat);
                }
            }
            i = i + 1;
        }
        assert(names.subrange(0, rules@.len() as int) =~= names);
        if applied.len() > 0 {
            self.stats.successful_optimizations = self.stats.successful_optimizations.wrapping_add(1);
        } else {
            self.stats.failed_optimizations = self.stats.failed_optimizations.wrapping_add(1);
        }
        let vectorization_plan = self.create_vectorization_plan(plan);
        let compilation_hints = self.generate_compilation_hints(plan, &applied);
        OptimizationResult {
            applied_optimizations: applied,
            expected_speedup: Speedup { numerator, denominator },
            compilation_hints,
            vectorization_plan,
        }
    }

    /// The vectorisation plan of a plan (see `vectorization_plan_for`).
    pub fn create_vectorization_plan(&self, plan: &LogicalPlan) -> (r: VectorizationPlan)
        requires
            self.wf(),
        ensures
            vectorization_plan_for(r, *plan),
    {
        let mut ops: Vec<String> = Vec::new();
        self.find_vectorizable_operations(plan, &mut ops);
        assert(views(ops@) =~= vectorizable_ops(*plan));
        let vector_width = self.vectorizer.capabilities().max_vector_width / 32;
        let memory_layout = if strings_contain(&ops, "column_scan") {
            MemoryLayout::ColumnMajor
        } else if ops.len() > 3 {
            MemoryLayout::Hybrid
        } else {
            MemoryLayout::RowMajor
        };
        let prefetching_strategy = if strings_contain(&ops, "sequential_scan") {
            PrefetchingStrategy::Sequential
        } else if strings_contain(&ops, "strided_access") {
            PrefetchingStrategy::Strided(64)
        } else {
            PrefetchingStrategy::Disabled
        };
        VectorizationPlan { vectorizable_operations: ops, vector_width, memory_layout, prefetching_strategy }
    }

    /// Appends the vectorisable operations of a plan, outermost first.
    pub fn find_vectorizable_operations(&self, plan: &LogicalPlan, operations: &mut Vec<String>)
        ensures
            views(final(operations)@) == views(old(operations)@) + vectorizable_ops(*plan),
        decreases plan,
    {
        let ghost start = views(operations@);
        match plan {
            LogicalPlan::SeqScan { .. } => {
                operations.push(owned("sequential_scan"));
                operations.push(owned("column_scan"));
            },
            LogicalPlan::IndexScan { .. } => {
                operations.push(owned("index_scan"));
            },
            LogicalPlan::Filter { input, .. } => {
                operations.push(owned("filter_operation"));
                assert(views(operations@) =~= start + seq!["filter_operation"@]);
                self.find_vectorizable_operations(input, operations);
            },
            LogicalPlan::NestedLoopJoin { left, right, .. } | LogicalPlan::HashJoin { left, right, .. } => {
                operations.push(owned("join_operation"));
                assert(views(operations@) =~= start + seq!["join_operation"@]);
                self.find_vectorizable_operations(left, operations);
                self.find_vectorizable_operations(right, operations);
            },
            LogicalPlan::GroupBy { input, .. } => {
                operations.push(owned("aggregation"));
                assert(views(operations@) =~= start + seq!["aggregation"@]);
                self.find_vectorizable_operations(input, operations);
            },
            LogicalPlan::Other { .. } => {},
        }
        assert(views(operations@) =~= start + vectorizable_ops(*plan));
    }

    /// The compiler hints for a plan and the rules applied to it.
    pub fn generate_compilation_hints(&self, plan: &LogicalPlan, applied_optimizations: &Vec<String>) -> (r: Vec<String>)
        ensures
            views(r@) == compilation_hints(*plan, views(applied_optimizations@)),
    {
        let mut hints: Vec<String> = Vec::new();
        let mut i: usize = 0;
        let ghost names = views(applied_optimizations@);
        assert(names.subrange(0, 0) =~= Seq::<Seq<char>>::empty());
        while i < applied_optimizations.len()
            invariant
                i <= applied_optimizations@.len(),
                names == views(applied_optimizations@),
                views(hints@) == rule_hints(names.subrange(0, i as int)),
            decreases applied_optimizations@.len() - i,
        {
            let name = applied_optimizations[i].as_str();
            let ghost pre = names.subrange(0, i as int);
            let ghost next = names.subrange(0, i + 1);
            assert(next.drop_last() =~= pre);
            let ghost before = views(hints@);
            if str_equal(name, "vectorization") {
                hints.push(owned("enable_simd"));
                hints.push(owned("unroll_loops"));
            } else if str_equal(name, "predicate_pushdown") {
                hints.push(owned("inline_predicates"));
            } else if str_equal(name, "join_order") {
                hints.push(owned("optimize_memory_layout"));
            }
            assert(views(hints@) =~= rule_hints(next));
            i = i + 1;
        }
        assert(names.subrange(0, names.len() as int) =~= names);
        let ghost base = views(hints@);
        if self.plan_has_many_filters(plan) {
            hints.push(owned("branch_prediction_hints"));
        }
        hints.push(owned("cache_aware_layout"));
        hints.push(owned("prefetch_data"));
        assert(views(hints@) =~= compilation_hints(*plan, names));
        hints
    }

    /// Whether the plan has more than three filters.
    pub fn plan_has_many_filters(&self, plan: &LogicalPlan) -> (r: bool)
        ensures
            r == (filter_count(*plan) > 3),
    {
        count_filters_capped(plan) > 3
    }

    /// The number of filters in a plan.
    pub fn count_filters(&self, plan: &LogicalPlan) -> (r: usize)
        requires
            filter_count(*plan) <= usize::MAX,
        ensures
            r == filter_count(*plan),
        decreases plan,
    {
        match plan {
            LogicalPlan::Filter { input, .. } => 1 + self.count_filters(input),
            LogicalPlan::NestedLoopJoin { left, right, .. } | LogicalPlan::HashJoin { left, right, .. } => {
                self.count_filters(left) + self.count_filters(right)
            },
            LogicalPlan::GroupBy { input, .. } => self.count_filters(input),
            _ => 0,
        }
    }

    /// The counters.
    pub fn stats(&self) -> (r: &OptimizationStats)
        ensures
            *r == self.statistics(),
    {
        &self.stats
    }

    /// Counts the plan's operations, vectorisable operations and
    /// opportunities, and estimates its costs (in thousandths, in a `u64`,
    /// which bounds the size of the plans it can cost).
    pub fn analyze_query(&self, plan: &LogicalPlan) -> (r: QueryAnalysis)
        requires
            node_count(*plan) <= usize::MAX,
            node_count(*plan) * 20000 <= u64::MAX,
        ensures
            r.total_operations == analyzed_operations(*plan),
            r.vectorizable_operations == analyzed_vectorizable(*plan),
            views(r.optimization_opportunities@) == analyzed_opportunities(*plan),
            r.estimated_baseline_cost == analyzed_operations(*plan) * 10000,
            r.estimated_optimized_cost == analyzed_operations(*plan) * 20000 / (2 + analyzed_vectorizable(*plan)),
    {
        let mut opportunities: Vec<String> = Vec::new();
        proof {
            lemma_analysis_bounds(*plan);
        }
        let (total, vectorizable) = analyze_plan(plan, &mut opportunities);
        assert(views(opportunities@) =~= analyzed_opportunities(*plan));
        let baseline: u64 = (total as u64) * 10000;
        let optimized: u64 = (total as u64) * 20000 / (2 + vectorizable as u64);
        QueryAnalysis {
            total_operations: total,
            vectorizable_operations: vectorizable,
            estimated_baseline_cost: baseline,
            estimated_optimized_cost: optimized,
            optimization_opportunities: opportunities,
        }
    }
}

/// The vectorisation plan of a plan: its vectorisable operations, eight
/// lanes, column-major layout when a column scan is among them (hybrid for
/// more than three operations, else row-major), and sequential prefetching
/// for sequential scans.
pub open spec fn vectorization_plan_for(v: VectorizationPlan, p: LogicalPlan) -> bool {
    let ops = vectorizable_ops(p);
    &&& views(v.vectorizable_operations@) == ops
    &&& v.vector_width == 8
    &&& if contains_text(v.vectorizable_operations@, "column_scan"@) {
        v.memory_layout is ColumnMajor
    } else if ops.len() > 3 {
        v.memory_layout is Hybrid
    } else {
        v.memory_layout is RowMajor
    }
    &&& if contains_text(v.vectorizable_operations@, "sequential_scan"@) {
        v.prefetching_strategy is Sequential
    } else if contains_text(v.vectorizable_operations@, "strided_access"@) {
        v.prefetching_strategy matches PrefetchingStrategy::Strided(n) && n == 64
    } else {
        v.prefetching_strategy is Disabled
    }
}

/// Whether a rule applies to a plan.
fn rule_applies(rule: &str, plan: &LogicalPlan) -> (r: bool)
    ensures
        r == rule_applicable(rule@, *plan),
{
    if str_equal(rule, "predicate_pushdown") {
        match plan {
            LogicalPlan::Filter { .. } => true,
            _ => false,
        }
    } else if str_equal(rule, "join_order") {
        plan.has_join()
    } else if str_equal(rule, "index_selection") {
        match plan {
            LogicalPlan::SeqScan { .. } => true,
            _ => false,
        }
    } else {
        true
    }
}

/// A rule's expected speed-up, in tenths.
fn speedup_tenths(rule: &str) -> (r: u64)
    ensures
        r == rule_speedup_tenths(rule@),
        r <= 100,
{
    if str_equal(rule, "predicate_pushdown") {
        13
    } else if str_equal(rule, "join_order") {
        20
    } else if str_equal(rule, "vectorization") {
        40
    } else if str_equal(rule, "constant_folding") {
        11
    } else if str_equal(rule, "common_subexpression") {
        15
    } else if str_equal(rule, "index_selection") {
        100
    } else {
        10
    }
}

/// 100 to the power `n`.
pub open spec fn pow100(n: nat) -> nat
    decreases n,
{
    if n == 0 {
        1
    } else {
        100 * pow100((n - 1) as nat)
    }
}

/// 10 to the power `n`.
pub open spec fn pow10(n: nat) -> nat
    decreases n,
{
    if n == 0 {
        1
    } else {
        10 * pow10((n - 1) as nat)
    }
}

proof fn lemma_pow_bounds(n: nat)
    requires
        n < 6,
    ensures
        pow100(n) * 100 <= u64::MAX,
        pow10(n) * 10 <= u64::MAX,
{
    reveal_with_fuel(pow100, 7);
    reveal_with_fuel(pow10, 7);
}

proof fn lemma_pow_step(n: nat)
    requires
        n >= 1,
    ensures
        pow100(n) == 100 * pow100((n - 1) as nat),
        pow10(n) == 10 * pow10((n - 1) as nat),
{
}

/// Whether the plan has more than three filters, counting no further than
/// four.
fn count_filters_capped(plan: &LogicalPlan) -> (r: usize)
    ensures
        r == if filter_count(*plan) > 4 {
            4
        } else {
            filter_count(*plan)
        },
    decreases plan,
{
    let n: usize = match plan {
        LogicalPlan::Filter { input, .. } => 1 + count_filters_capped(input),
        LogicalPlan::NestedLoopJoin { left, right, .. } | LogicalPlan::HashJoin { left, right, .. } => {
            count_filters_capped(left) + count_filters_capped(right)
        },
        LogicalPlan::GroupBy { input, .. } => count_filters_capped(input),
        _ => 0,
    };
    if n > 4 {
        4
    } else {
        n
    }
}

/// Analysis never counts more operations than the plan has.
proof fn lemma_analysis_bounds(p: LogicalPlan)
    ensures
        analyzed_operations(p) <= node_count(p),
        analyzed_vectorizable(p) <= analyzed_operations(p),
    decreases p,
{
    match p {
        LogicalPlan::NestedLoopJoin { left, right, .. } => {
            lemma_analysis_bounds(*left);
            lemma_analysis_bounds(*right);
        },
        LogicalPlan::HashJoin { left, right, .. } => {
            lemma_analysis_bounds(*left);
            lemma_analysis_bounds(*right);
        },
        _ => {},
    }
}

/// Analyses a plan: returns its counted and vectorisable operations and
/// appends its opportunities.
fn analyze_plan(plan: &LogicalPlan, opportunities: &mut Vec<String>) -> (r: (usize, usize))
    requires
        analyzed_operations(*plan) <= usize::MAX,
        analyzed_vectorizable(*plan) <= analyzed_operations(*plan),
    ensures
        r.0 == analyzed_operations(*plan),
        r.1 == analyzed_vectorizable(*plan),
        views(final(opportunities)@) == views(old(opportunities)@) + analyzed_opportunities(*plan),
    decreases plan,
{
    let ghost start = views(opportunities@);
    let r = match plan {
        LogicalPlan::SeqScan { .. } | LogicalPlan::IndexScan { .. } => {
            opportunities.push(owned("scan_vectorization"));
            (1, 1)
        },
        LogicalPlan::Filter { .. } => {
            opportunities.push(owned("filter_vectorization"));
            (1, 1)
        },
        LogicalPlan::GroupBy { .. } => {
            opportunities.push(owned("aggregation_vectorization"));
            (1, 1)
        },
        LogicalPlan::NestedLoopJoin { left, right, .. } | LogicalPlan::HashJoin { left, right, .. } => {
            opportunities.push(owned("join_optimization"));
            assert(views(opportunities@) =~= start + seq!["join_optimization"@]);
            proof {
                lemma_analysis_bounds(**left);
                lemma_analysis_bounds(**right);
            }
            let (lt, lv) = analyze_plan(left, opportunities);
            let (rt, rv) = analyze_plan(right, opportunities);
            (1 + lt + rt, lv + rv)
        },
        LogicalPlan::Other { .. } => (1, 0),
    };
    assert(views(opportunities@) =~= start + analyzed_opportunities(*plan));
    r
}

} // verus!
