use auroradb::jit::compiler::{JITCompiler, OptimizationLevel, QueryHash, SIMDSupport};
use auroradb::jit::optimizer::{MemoryLayout, PrefetchingStrategy, QueryOptimizer};
use auroradb::jit::plan::LogicalPlan;
use auroradb::jit::simd::{CpuFeatures, SimdAggregator, SimdProcessor};
use auroradb::jit::cache::{CacheConfig, CacheError};
use auroradb::text::StringMap;

fn avx2() -> CpuFeatures {
    CpuFeatures { avx512f: false, avx2: true, sse41: true }
}

fn scan(t: &str) -> Box<LogicalPlan> {
    Box::new(LogicalPlan::SeqScan { table: t.to_string() })
}

#[test]
fn test_simd_processor_creation() {
    let processor = SimdProcessor::new(avx2());
    assert!(processor.vector_size() > 0);
}

#[test]
fn test_simd_info() {
    let processor = SimdProcessor::new(avx2());
    let info = processor.get_simd_info();

    assert!(info.contains_key("vector_size_bytes"));
    assert!(info.contains_key("estimated_performance_multiplier"));
}

#[test]
fn simd_vector_sizes_follow_the_widest_instruction_set() {
    let none = CpuFeatures { avx512f: false, avx2: false, sse41: false };
    let sse = CpuFeatures { avx512f: false, avx2: false, sse41: true };
    let avx512 = CpuFeatures { avx512f: true, avx2: true, sse41: true };
    assert_eq!(SimdProcessor::new(none).vector_size(), 8);
    assert_eq!(SimdProcessor::new(sse).vector_size(), 16);
    assert_eq!(SimdProcessor::new(avx2()).vector_size(), 32);
    assert_eq!(SimdProcessor::new(avx512).vector_size(), 64);
    let info = SimdProcessor::new(avx2()).get_simd_info();
    assert_eq!(info.get("vector_size_bytes"), Some(&"32".to_string()));
    assert_eq!(info.get("avx512_enabled"), Some(&"false".to_string()));
    assert_eq!(info.get("avx2_enabled"), Some(&"true".to_string()));
    assert_eq!(info.get("estimated_performance_multiplier"), Some(&"4".to_string()));
    assert_eq!(info.len(), 5);
}

#[test]
fn count_simd_adds_occurrences_to_groups() {
    let agg = SimdAggregator::new(avx2());
    let mut groups: StringMap<i64> = StringMap::new();
    groups.insert("a".to_string(), 10);
    let data = vec!["a".to_string(), "b".to_string(), "a".to_string(), "c".to_string(), "b".to_string()];
    agg.count_simd(&mut groups, &data);
    assert_eq!(groups.get("a"), Some(&12));
    assert_eq!(groups.get("b"), Some(&2));
    assert_eq!(groups.get("c"), Some(&1));
    assert_eq!(groups.len(), 3);
}

#[test]
fn compiler_caches_by_plan() {
    let mut compiler = JITCompiler::new(OptimizationLevel::Standard).unwrap();
    let plan = LogicalPlan::Filter { input: scan("users"), predicate: "age > 3".to_string() };
    let first = compiler.compile_query(&plan).unwrap();
    assert_eq!(first.code_size_bytes, 1024);
    assert_eq!(first.optimization_applied, vec!["inlining".to_string(), "vectorization".to_string()]);
    let q = first.compiled_query.unwrap();
    assert_eq!(q.module.name, "aurora_query");
    assert_eq!(q.performance.vectorization_efficiency, 800);
    let second = compiler.compile_query(&plan).unwrap();
    assert_eq!(second.query_hash, first.query_hash);
    assert_eq!(second.optimization_applied, vec!["cached".to_string()]);
    assert_eq!(second.code_size_bytes, 1000);
    assert_eq!(compiler.stats().cache_hits, 1);
    assert_eq!(compiler.stats().cache_misses, 1);
    assert_eq!(compiler.stats().total_compilations, 1);
    let other = LogicalPlan::Filter { input: scan("orders"), predicate: "age > 3".to_string() };
    let third = compiler.compile_query(&other).unwrap();
    assert_ne!(third.query_hash, first.query_hash);
    assert_eq!(third.optimization_applied, vec!["inlining".to_string(), "vectorization".to_string()]);
    assert_eq!(compiler.stats().cache_misses, 2);
    assert_ne!(first.query_hash, QueryHash(0));
}

#[test]
fn compiler_ir_and_optimisation_notes() {
    let compiler = JITCompiler::new(OptimizationLevel::Aggressive).unwrap();
    let join = LogicalPlan::HashJoin { left: scan("a"), right: scan("b"), condition: "a.id = b.id".to_string() };
    let ir = compiler.generate_llvm_ir(&join);
    assert!(ir.starts_with("; AuroraDB JIT Compiled Query\n"));
    assert!(ir.contains("@perform_join"));
    assert!(!ir.contains("@scan_table() {"));
    assert!(ir.contains("Use AVX2 for vectorized filtering"));
    let optimized = compiler.optimize_ir(String::new());
    assert_eq!(optimized, "; Aggressive optimizations applied\n; - Loop unrolling\n; - Vectorization\n; - Constant propagation\n");
    let none = JITCompiler::new(OptimizationLevel::Disabled).unwrap();
    assert_eq!(none.optimize_ir("x".to_string()), "x");
    assert_eq!(OptimizationLevel::default(), OptimizationLevel::Standard);
    let s = SIMDSupport::detect();
    assert!(s.has_avx2 && !s.has_avx512 && s.vector_width == 256);
}

#[test]
fn compiled_query_execution_is_simulated() {
    let compiler = JITCompiler::new(OptimizationLevel::Basic).unwrap();
    let q = compiler.generate_native_code(&String::new());
    let out = compiler.execute_compiled_query(&q, &[]).unwrap();
    assert_eq!(out, (0u8..10).collect::<Vec<u8>>());
}

#[test]
fn optimizer_rules_speedups_and_hints() {
    let mut opt = QueryOptimizer::new();
    let plan = LogicalPlan::Filter { input: scan("t"), predicate: "x".to_string() };
    let r = opt.optimize(&plan, OptimizationLevel::Standard);
    assert_eq!(r.applied_optimizations, vec!["constant_folding".to_string(), "predicate_pushdown".to_string()]);
    assert_eq!((r.expected_speedup.numerator, r.expected_speedup.denominator), (143, 100));
    assert_eq!(
        r.compilation_hints,
        vec!["inline_predicates".to_string(), "cache_aware_layout".to_string(), "prefetch_data".to_string()]
    );
    assert_eq!(
        r.vectorization_plan.vectorizable_operations,
        vec!["filter_operation".to_string(), "sequential_scan".to_string(), "column_scan".to_string()]
    );
    assert!(matches!(r.vectorization_plan.memory_layout, MemoryLayout::ColumnMajor));
    assert!(matches!(r.vectorization_plan.prefetching_strategy, PrefetchingStrategy::Sequential));
    assert_eq!(r.vectorization_plan.vector_width, 8);
    let none = opt.optimize(&plan, OptimizationLevel::Disabled);
    assert!(none.applied_optimizations.is_empty());
    assert_eq!(opt.stats().total_optimizations, 2);
    assert_eq!(opt.stats().successful_optimizations, 1);
    assert_eq!(opt.stats().failed_optimizations, 1);
}

#[test]
fn optimizer_analysis_counts() {
    let opt = QueryOptimizer::new();
    let plan = LogicalPlan::NestedLoopJoin {
        left: scan("a"),
        right: Box::new(LogicalPlan::Filter { input: scan("b"), predicate: "p".to_string() }),
        condition: "c".to_string(),
    };
    let a = opt.analyze_query(&plan);
    assert_eq!(a.total_operations, 3);
    assert_eq!(a.vectorizable_operations, 2);
    assert_eq!(a.optimization_opportunities, vec!["join_optimization".to_string(), "scan_vectorization".to_string(), "filter_vectorization".to_string()]);
    assert_eq!(a.estimated_baseline_cost, 30000);
    assert_eq!(a.estimated_optimized_cost, 15000);
    assert_eq!(opt.count_filters(&plan), 1);
}

#[test]
fn cache_settings_and_errors() {
    let c = CacheConfig::default();
    assert_eq!(c.max_entries, 1000);
    assert_eq!(c.max_memory_mb, 512);
    assert_eq!(CacheError::CacheFull.message(), "Cache is full");
}

#[test]
fn compiler_caches_by_given_hash() {
    let mut compiler = JITCompiler::new(OptimizationLevel::Basic).unwrap();
    let a = LogicalPlan::Filter { input: scan("users"), predicate: "x".to_string() };
    let b = LogicalPlan::Filter { input: scan("orders"), predicate: "y".to_string() };
    let first = compiler.compile_query_with_hash(&a, 7).unwrap();
    assert_eq!(first.query_hash, QueryHash(7));
    // another plan under the same hash is answered from the cache
    let second = compiler.compile_query_with_hash(&b, 7).unwrap();
    assert_eq!(second.optimization_applied, vec!["cached".to_string()]);
    assert_eq!(compiler.stats().cache_hits, 1);
}
