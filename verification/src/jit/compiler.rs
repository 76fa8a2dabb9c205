//! The query compiler: IR text for a plan, optimisation passes by level,
//! and a cache of compiled queries keyed by the plan's hash.

use vstd::prelude::*;
use crate::ambient::{hash_text, utc_now_millis, utc_now_seconds};
use crate::jit::plan::{LogicalPlan, is_join, is_scan, plan_text};
use crate::text::{copy_strings, owned, push_text, views};

verus! {

/// The key of a compiled query: a hash of its plan.
#[derive(Debug, Clone, Copy, PartialEq, Eq, Hash, Structural)]
pub struct QueryHash(pub u64);

/// Optimisation levels.
#[derive(Debug, Clone, Copy, PartialEq, Eq, Structural)]
pub enum OptimizationLevel {
    Disabled,
    Basic,
    Standard,
    Aggressive,
    Maximum,
}

impl Default for OptimizationLevel {
    fn default() -> (r: Self)
        ensures
            r == OptimizationLevel::Standard,
    {
        OptimizationLevel::Standard
    }
}

/// Where and how a query was compiled.
#[derive(Debug)]
pub struct CompilationMetadata {
    pub source_plan: String,
    pub target_architecture: String,
    pub compilation_flags: Vec<String>,
    pub llvm_version: String,
    /// Seconds since the Unix epoch.
    pub created_at: u64,
}

/// Performance estimates of compiled code; the three rates are in
/// thousandths.
#[derive(Debug, Clone, Copy, PartialEq, Eq, Structural)]
pub struct PerformanceCharacteristics {
    pub estimated_instructions: u64,
    pub cache_miss_estimate: u32,
    pub branch_misprediction_estimate: u32,
    pub vectorization_efficiency: u32,
}

/// A compiled module.
#[derive(Debug)]
pub struct LLVMModule {
    pub name: String,
    pub functions: Vec<String>,
}

/// A compiled query.
#[derive(Debug)]
pub struct CompiledQuery {
    pub module: LLVMModule,
    pub metadata: CompilationMetadata,
    pub performance: PerformanceCharacteristics,
}

/// The SIMD support the compiler targets.
#[derive(Debug, Clone, Copy, PartialEq, Eq, Structural)]
pub struct SIMDSupport {
    pub has_avx512: bool,
    pub has_avx2: bool,
    pub has_sse4_2: bool,
    pub has_neon: bool,
    /// In bits.
    pub vector_width: usize,
}

/// The compilation target.
#[derive(Debug)]
pub struct LLVMContext {
    pub initialized: bool,
    pub target_triple: String,
    pub features: Vec<String>,
}

/// Counters of compilation work.  Counts wrap at `u64::MAX`; the average
/// compilation time is in whole milliseconds, rounded down.
#[derive(Debug, Clone, Copy, PartialEq, Eq, Structural)]
pub struct CompilationStats {
    pub total_compilations: u64,
    pub cache_hits: u64,
    pub cache_misses: u64,
    pub average_compilation_time_ms: u64,
    pub total_compilation_time_ms: u64,
    pub total_code_size_bytes: u64,
}

/// The result of compiling a query.
#[derive(Debug)]
pub struct CompilationResult {
    pub query_hash: QueryHash,
    pub compiled_query: Option<CompiledQuery>,
    pub compilation_time_ms: u64,
    pub code_size_bytes: usize,
    pub optimization_applied: Vec<String>,
}

/// Compilation errors.
#[derive(Debug)]
pub enum JITError {
    CompilationError(String),
    OptimizationError(String),
    CodeGenerationError(String),
    ExecutionError(String),
    UnsupportedOperation(String),
}

impl JITError {
    /// A message for people.
    pub fn message(&self) -> (r: String)
        ensures
            match self {
                JITError::CompilationError(s) => r@ == "LLVM compilation error: "@ + s@,
                JITError::OptimizationError(s) => r@ == "Optimization error: "@ + s@,
                JITError::CodeGenerationError(s) => r@ == "Code generation error: "@ + s@,
                JITError::ExecutionError(s) => r@ == "Execution error: "@ + s@,
                JITError::UnsupportedOperation(s) => r@ == "Unsupported operation: "@ + s@,
            },
    {
        let mut m = String::new();
        match self {
            JITError::CompilationError(s) => {
                push_text(&mut m, "LLVM compilation error: ");
                push_text(&mut m, s.as_str());
            },
            JITError::OptimizationError(s) => {
                push_text(&mut m, "Optimization error: ");
                push_text(&mut m, s.as_str());
            },
            JITError::CodeGenerationError(s) => {
                push_text(&mut m, "Code generation error: ");
                push_text(&mut m, s.as_str());
            },
            JITError::ExecutionError(s) => {
                push_text(&mut m, "Execution error: ");
                push_text(&mut m, s.as_str());
            },
            JITError::UnsupportedOperation(s) => {
                push_text(&mut m, "Unsupported operation: ");
                push_text(&mut m, s.as_str());
            },
        }
        m
    }
}

impl SIMDSupport {
    /// The support assumed for code generation: AVX2 and SSE4.2, 256-bit
    /// vectors.
    pub fn detect() -> (r: Self)
        ensures
            !r.has_avx512 && r.has_avx2 && r.has_sse4_2 && !r.has_neon && r.vector_width == 256,
    {
        SIMDSupport { has_avx512: false, has_avx2: true, has_sse4_2: true, has_neon: false, vector_width: 256 }
    }
}

impl LLVMContext {
    /// A context for x86-64 Linux with AVX2 and SSE4.2.
    pub fn new() -> (r: Result<Self, JITError>)
        ensures
            r matches Ok(c) && c.initialized && c.target_triple@ == "x86_64-unknown-linux-gnu"@ && views(
                c.features@,
            ) == seq!["avx2"@, "sse4.2"@],
    {
        let features = vec![owned("avx2"), owned("sse4.2")];
        assert(views(features@) =~= seq!["avx2"@, "sse4.2"@]);
        Ok(LLVMContext { initialized: true, target_triple: owned("x86_64-unknown-linux-gnu"), features })
    }
}

/// Two compiled queries hold the same values.
pub open spec fn same_query(a: CompiledQuery, b: CompiledQuery) -> bool {
    &&& a.module.name@ == b.module.name@
    &&& views(a.module.functions@) == views(b.module.functions@)
    &&& a.metadata.source_plan@ == b.metadata.source_plan@
    &&& a.metadata.target_architecture@ == b.metadata.target_architecture@
    &&& views(a.metadata.compilation_flags@) == views(b.metadata.compilation_flags@)
    &&& a.metadata.llvm_version@ == b.metadata.llvm_version@
    &&& a.metadata.created_at == b.metadata.created_at
    &&& a.performance == b.performance
}

impl CompiledQuery {
    /// A copy of the compiled query.
    pub fn duplicate(&self) -> (r: Self)
        ensures
            same_query(r, *self),
    {
        CompiledQuery {
            module: LLVMModule { name: self.module.name.clone(), functions: copy_strings(&self.module.functions) },
            metadata: CompilationMetadata {
                source_plan: self.metadata.source_plan.clone(),
                target_architecture: self.metadata.target_architecture.clone(),
                compilation_flags: copy_strings(&self.metadata.compilation_flags),
                llvm_version: self.metadata.llvm_version.clone(),
                created_at: self.metadata.created_at,
            },
            performance: self.performance,
        }
    }
}

/// The IR of a table scan, for plans that are scans.
pub open spec fn scan_ir(p: LogicalPlan) -> Seq<char> {
    if is_scan(p) {
        "define i32 @scan_table() {\n"@ + "  ; Table scan implementation\n"@ + "  ret i32 100  ; row count\n"@ + "}\n\n"@
    } else {
        Seq::empty()
    }
}

/// The IR of the filter step (every plan has one).
pub open spec fn filter_ir(simd: SIMDSupport) -> Seq<char> {
    "define i32 @apply_filter(i32 %input_rows) {\n"@ + "  ; Filter implementation with SIMD\n"@ + (if simd.has_avx2 {
        "  ; Use AVX2 for vectorized filtering\n"@
    } else {
        Seq::empty()
    }) + "  ret i32 %input_rows\n"@ + "}\n\n"@
}

/// The IR of a join, for plans that are joins.
pub open spec fn join_ir(p: LogicalPlan) -> Seq<char> {
    if is_join(p) {
        "define i32 @perform_join(i32 %left_rows, i32 %right_rows) {\n"@ + "  ; Hash join implementation\n"@
            + "  ret i32 50  ; joined row count\n"@ + "}\n\n"@
    } else {
        Seq::empty()
    }
}

/// The IR of an aggregation, for plans that are groupings.
pub open spec fn aggregate_ir(p: LogicalPlan, simd: SIMDSupport) -> Seq<char> {
    if p is GroupBy {
        "define i32 @compute_aggregate(i32 %input_rows) {\n"@ + "  ; Aggregation implementation with SIMD\n"@ + (
        if simd.has_avx512 {
            "  ; Use AVX-512 for vectorized aggregation\n"@
        } else {
            Seq::empty()
        }) + "  ret i32 1  ; aggregate result\n"@ + "}\n\n"@
    } else {
        Seq::empty()
    }
}

/// The IR of a plan: a header, the steps the plan has, and the entry point.
pub open spec fn plan_ir(p: LogicalPlan, simd: SIMDSupport) -> Seq<char> {
    "; AuroraDB JIT Compiled Query\n"@ + "target triple = \"x86_64-unknown-linux-gnu\"\n\n"@ + scan_ir(p) + filter_ir(simd)
        + join_ir(p) + aggregate_ir(p, simd) + "\ndefine i32 @execute_query(i8* %params, i32 %param_len) {\n"@
        + "entry:\n"@ + "  ; Call generated functions\n"@ + "  %result = call i32 @scan_table()\n"@
        + "  %filtered = call i32 @apply_filter(i32 %result)\n"@ + "  ret i32 %filtered\n"@ + "}\n"@
}

/// The notes that optimisation at a level appends to the IR.
pub open spec fn optimization_notes(level: OptimizationLevel) -> Seq<char> {
    match level {
        OptimizationLevel::Disabled => Seq::empty(),
        OptimizationLevel::Basic => "; Basic optimizations applied\n"@,
        OptimizationLevel::Standard => "; Standard optimizations applied\n"@ + "; - Function inlining\n"@
            + "; - Dead code elimination\n"@,
        OptimizationLevel::Aggressive => "; Aggressive optimizations applied\n"@ + "; - Loop unrolling\n"@
            + "; - Vectorization\n"@ + "; - Constant propagation\n"@,
        OptimizationLevel::Maximum => "; Maximum optimizations applied\n"@ + "; - All available optimizations\n"@,
    }
}

/// The position of the cached query with hash `h`, if any.
pub open spec fn cached_index(cache: Seq<(QueryHash, CompiledQuery)>, h: u64) -> Option<int> {
    if exists|i: int| 0 <= i < cache.len() && #[trigger] cache[i].0.0 == h {
        Some(choose|i: int| 0 <= i < cache.len() && #[trigger] cache[i].0.0 == h)
    } else {
        None
    }
}

/// The code generated for a query: the `aurora_query` module with its two
/// functions, metadata for the context's target, and fixed estimates (AVX2
/// lifts the vectorisation efficiency from 300 to 800 thousandths).
pub open spec fn generated_query(q: CompiledQuery, target: Seq<char>, simd: SIMDSupport) -> bool {
    &&& q.module.name@ == "aurora_query"@
    &&& views(q.module.functions@) == seq!["execute_query"@, "scan_table"@]
    &&& q.metadata.source_plan@ == "QueryPlan"@
    &&& q.metadata.target_architecture@ == target
    &&& views(q.metadata.compilation_flags@) == seq!["-O2"@, "-mavx2"@]
    &&& q.metadata.llvm_version@ == "15.0.0"@
    &&& q.performance == PerformanceCharacteristics {
        estimated_instructions: 1000,
        cache_miss_estimate: 50,
        branch_misprediction_estimate: 20,
        vectorization_efficiency: if simd.has_avx2 {
            800
        } else {
            300
        },
    }
}

/// A result answered from the cache: the cached query, no compilation time,
/// its instruction estimate as code size, and `cached` as the optimisation.
pub open spec fn hit_result(res: CompilationResult, h: u64, cached: CompiledQuery) -> bool {
    &&& res.query_hash == QueryHash(h)
    &&& res.compilation_time_ms == 0
    &&& res.code_size_bytes == cached.performance.estimated_instructions as usize
    &&& views(res.optimization_applied@) == seq!["cached"@]
    &&& res.compiled_query matches Some(q) && same_query(q, cached)
}

/// A result of a fresh compilation: generated code (the same as `stored`),
/// a code size of 1024 and the optimisations `inlining` and `vectorization`.
pub open spec fn miss_result(
    res: CompilationResult,
    h: u64,
    target: Seq<char>,
    simd: SIMDSupport,
    stored: CompiledQuery,
) -> bool {
    &&& res.query_hash == QueryHash(h)
    &&& res.code_size_bytes == 1024
    &&& views(res.optimization_applied@) == seq!["inlining"@, "vectorization"@]
    &&& res.compiled_query matches Some(q) && generated_query(q, target, simd) && same_query(stored, q)
}

/// Compiles query plans and caches the results.
pub struct JITCompiler {
    context: LLVMContext,
    compiled_queries: Vec<(QueryHash, CompiledQuery)>,
    optimization_level: OptimizationLevel,
    simd_support: SIMDSupport,
    stats: CompilationStats,
}

impl JITCompiler {
    /// The compiled queries, oldest first.
    pub closed spec fn cache(&self) -> Seq<(QueryHash, CompiledQuery)> {
        self.compiled_queries@
    }

    /// No two cached queries share a hash.
    pub closed spec fn wf(&self) -> bool {
        forall|a: int, b: int|
            0 <= a < self.compiled_queries@.len() && 0 <= b < self.compiled_queries@.len() && a != b
                ==> #[trigger] self.compiled_queries@[a].0 != #[trigger] self.compiled_queries@[b].0
    }

    /// The counters.
    pub closed spec fn statistics(&self) -> CompilationStats {
        self.stats
    }

    /// The SIMD support targeted.
    pub closed spec fn simd(&self) -> SIMDSupport {
        self.simd_support
    }

    /// The optimisation level.
    pub closed spec fn level(&self) -> OptimizationLevel {
        self.optimization_level
    }

    /// The target triple.
    pub closed spec fn target(&self) -> Seq<char> {
        self.context.target_triple@
    }

    /// A compiler at the given level, with an empty cache and zero counters.
    pub fn new(optimization_level: OptimizationLevel) -> (r: Result<Self, JITError>)
        ensures
            r matches Ok(c) && c.wf() && c.level() == optimization_level && c.cache().len() == 0 && c.statistics()
                == (CompilationStats {
                total_compilations: 0,
                cache_hits: 0,
                cache_misses: 0,
                average_compilation_time_ms: 0,
                total_compilation_time_ms: 0,
                total_code_size_bytes: 0,
            }) && c.simd() == (SIMDSupport {
                has_avx512: false,
                has_avx2: true,
                has_sse4_2: true,
                has_neon: false,
                vector_width: 256,
            }) && c.target() == "x86_64-unknown-linux-gnu"@,
    {
        let context = match LLVMContext::new() {
            Ok(c) => c,
            Err(e) => {
                return Err(e);
            },
        };
        Ok(
            JITCompiler {
                context,
                compiled_queries: Vec::new(),
                optimization_level,
                simd_support: SIMDSupport::detect(),
                stats: CompilationStats {
                    total_compilations: 0,
                    cache_hits: 0,
                    cache_misses: 0,
                    average_compilation_time_ms: 0,
                    total_compilation_time_ms: 0,
                    total_code_size_bytes: 0,
                },
            },
        )
    }

    /// Compiles a plan whose hash is `h`, or returns the cached compilation
    /// of a plan with that hash.  A hit is counted and answered from the cache; a miss
    /// generates and optimises IR, generates code, caches it and updates the
    /// counters.
    pub fn compile_query_with_hash(&mut self, plan: &LogicalPlan, h: u64) -> (r: Result<CompilationResult, JITError>)
        requires
            old(self).wf(),
        ensures
            final(self).wf(),
            final(self).level() == old(self).level(),
            final(self).simd() == old(self).simd(),
            final(self).target() == old(self).target(),
            match cached_index(old(self).cache(), h) {
                Some(i) => (r matches Ok(res) && hit_result(res, h, old(self).cache()[i].1))
                    && final(self).cache() == old(self).cache() && final(self).statistics() == (CompilationStats {
                    cache_hits: old(self).statistics().cache_hits.wrapping_add(1),
                    ..old(self).statistics()
                }),
                None => (r matches Ok(res) && miss_result(
                    res,
                    h,
                    old(self).target(),
                    old(self).simd(),
                    final(self).cache().last().1,
                )) && final(self).cache().len() == old(self).cache().len() + 1 && final(self).cache().drop_last()
                    == old(self).cache() && final(self).cache().last().0 == QueryHash(h)
                    && final(self).statistics().cache_misses == old(self).statistics().cache_misses.wrapping_add(1)
                    && final(self).statistics().total_compilations
                    == old(self).statistics().total_compilations.wrapping_add(1)
                    && final(self).statistics().cache_hits == old(self).statistics().cache_hits
                    && final(self).statistics().total_code_size_bytes
                    == old(self).statistics().total_code_size_bytes.wrapping_add(1000),
            },
    {
        let start = utc_now_millis();
        let query_hash = QueryHash(h);
        let n = self.compiled_queries.len();
        let mut i: usize = 0;
        while i < n
            invariant
                i <= n,
                *self == *old(self),
                old(self).wf(),
                h == h,
                query_hash == QueryHash(h),
                n == self.compiled_queries@.len(),
                forall|j: int| 0 <= j < i ==> #[trigger] self.compiled_queries@[j].0.0 != h,
            decreases n - i,
        {
            if self.compiled_queries[i].0.0 == h {
                proof {
                    assert(old(self).cache()[i as int].0.0 == h);
                    let k = cached_index(old(self).cache(), h)->Some_0;
                    assert(k == i) by {
                        if k != i {
                            assert(old(self).compiled_queries@[k].0 != old(self).compiled_queries@[i as int].0);
                        }
                    }
                }
                let cached = self.compiled_queries[i].1.duplicate();
                let size = cached.performance.estimated_instructions as usize;
                self.stats.cache_hits = self.stats.cache_hits.wrapping_add(1);
                let applied = vec![owned("cached")];
                assert(views(applied@) =~= seq!["cached"@]);
                return Ok(
                    CompilationResult {
                        query_hash,
                        compiled_query: Some(cached),
                        compilation_time_ms: 0,
                        code_size_bytes: size,
                        optimization_applied: applied,
                    },
                );
            }
            i = i + 1;
        }
        assert(cached_index(old(self).cache(), h) is None);
        self.stats.cache_misses = self.stats.cache_misses.wrapping_add(1);
        let ir = self.generate_llvm_ir(plan);
        let optimized = self.optimize_ir(ir);
        let compiled = self.generate_native_code(&optimized);
        let stored = compiled.duplicate();
        let ghost before = self.compiled_queries@;
        self.compiled_queries.push((query_hash, stored));
        assert(self.compiled_queries@.drop_last() =~= before);
        assert forall|a: int, b: int|
            0 <= a < self.compiled_queries@.len() && 0 <= b < self.compiled_queries@.len() && a != b implies #[trigger] self.compiled_queries@[a].0
            != #[trigger] self.compiled_queries@[b].0 by {
            if a < before.len() && b < before.len() {
                assert(self.compiled_queries@[a] == before[a]);
                assert(self.compiled_queries@[b] == before[b]);
            } else if a < before.len() {
                assert(self.compiled_queries@[a] == before[a]);
                assert(before[a].0.0 != h);
            } else {
                assert(self.compiled_queries@[b] == before[b]);
                assert(before[b].0.0 != h);
            }
        }
        let end = utc_now_millis();
        let elapsed: u64 = if end >= start && start >= 0 {
            (end - start) as u64
        } else {
            0
        };
        self.stats.total_compilations = self.stats.total_compilations.wrapping_add(1);
        self.stats.total_compilation_time_ms = self.stats.total_compilation_time_ms.wrapping_add(elapsed);
        if self.stats.total_compilations > 0 {
            self.stats.average_compilation_time_ms = self.stats.total_compilation_time_ms
                / self.stats.total_compilations;
        }
        self.stats.total_code_size_bytes = self.stats.total_code_size_bytes.wrapping_add(
            compiled.performance.estimated_instructions,
        );
        let applied = vec![owned("inlining"), owned("vectorization")];
        assert(views(applied@) =~= seq!["inlining"@, "vectorization"@]);
        Ok(
            CompilationResult {
                query_hash,
                compiled_query: Some(compiled),
                compilation_time_ms: elapsed,
                code_size_bytes: 1024,
                optimization_applied: applied,
            },
        )
    }

    /// Compiles a plan, or returns the cached compilation of a plan with the
    /// same hash (the hash of its text by `hash_text`).  A hit is counted and answered from the cache; a miss
    /// generates and optimises IR, generates code, caches it and updates the
    /// counters.
    pub fn compile_query(&mut self, plan: &LogicalPlan) -> (r: Result<CompilationResult, JITError>)
        requires
            old(self).wf(),
        ensures
            r is Ok,
            final(self).wf(),
            final(self).level() == old(self).level(),
            final(self).simd() == old(self).simd(),
            final(self).target() == old(self).target(),
            match cached_index(old(self).cache(), r->Ok_0.query_hash.0) {
                Some(i) => (r matches Ok(res) && hit_result(res, r->Ok_0.query_hash.0, old(self).cache()[i].1))
                    && final(self).cache() == old(self).cache() && final(self).statistics() == (CompilationStats {
                    cache_hits: old(self).statistics().cache_hits.wrapping_add(1),
                    ..old(self).statistics()
                }),
                None => (r matches Ok(res) && miss_result(
                    res,
                    r->Ok_0.query_hash.0,
                    old(self).target(),
                    old(self).simd(),
                    final(self).cache().last().1,
                )) && final(self).cache().len() == old(self).cache().len() + 1 && final(self).cache().drop_last()
                    == old(self).cache() && final(self).cache().last().0 == QueryHash(r->Ok_0.query_hash.0)
                    && final(self).statistics().cache_misses == old(self).statistics().cache_misses.wrapping_add(1)
                    && final(self).statistics().total_compilations
                    == old(self).statistics().total_compilations.wrapping_add(1)
                    && final(self).statistics().cache_hits == old(self).statistics().cache_hits
                    && final(self).statistics().total_code_size_bytes
                    == old(self).statistics().total_code_size_bytes.wrapping_add(1000),
            },
    {
        let mut text = String::new();
        plan.describe(&mut text);
        let h = hash_text(text.as_str());
        self.compile_query_with_hash(plan, h)
    }

    /// The IR of a plan (see `plan_ir`).
    pub fn generate_llvm_ir(&self, plan: &LogicalPlan) -> (r: String)
        ensures
            r@ == plan_ir(*plan, self.simd()),
    {
        let mut ir = String::new();
        push_text(&mut ir, "; AuroraDB JIT Compiled Query\n");
        push_text(&mut ir, "target triple = \"x86_64-unknown-linux-gnu\"\n\n");
        if plan.has_scan() {
            push_text(&mut ir, "define i32 @scan_table() {\n");
            push_text(&mut ir, "  ; Table scan implementation\n");
            push_text(&mut ir, "  ret i32 100  ; row count\n");
            push_text(&mut ir, "}\n\n");
        }
        push_text(&mut ir, "define i32 @apply_filter(i32 %input_rows) {\n");
        push_text(&mut ir, "  ; Filter implementation with SIMD\n");
        if self.simd_support.has_avx2 {
            push_text(&mut ir, "  ; Use AVX2 for vectorized filtering\n");
        }
        push_text(&mut ir, "  ret i32 %input_rows\n");
        push_text(&mut ir, "}\n\n");
        if plan.has_join() {
            push_text(&mut ir, "define i32 @perform_join(i32 %left_rows, i32 %right_rows) {\n");
            push_text(&mut ir, "  ; Hash join implementation\n");
            push_text(&mut ir, "  ret i32 50  ; joined row count\n");
            push_text(&mut ir, "}\n\n");
        }
        if plan.has_group_by() {
            push_text(&mut ir, "define i32 @compute_aggregate(i32 %input_rows) {\n");
            push_text(&mut ir, "  ; Aggregation implementation with SIMD\n");
            if self.simd_support.has_avx512 {
                push_text(&mut ir, "  ; Use AVX-512 for vectorized aggregation\n");
            }
            push_text(&mut ir, "  ret i32 1  ; aggregate result\n");
            push_text(&mut ir, "}\n\n");
        }
        push_text(&mut ir, "\ndefine i32 @execute_query(i8* %params, i32 %param_len) {\n");
        push_text(&mut ir, "entry:\n");
        push_text(&mut ir, "  ; Call generated functions\n");
        push_text(&mut ir, "  %result = call i32 @scan_table()\n");
        push_text(&mut ir, "  %filtered = call i32 @apply_filter(i32 %result)\n");
        push_text(&mut ir, "  ret i32 %filtered\n");
        push_text(&mut ir, "}\n");
        assert(ir@ =~= plan_ir(*plan, self.simd()));
        ir
    }

    /// The IR with the notes of the compiler's optimisation level appended.
    pub fn optimize_ir(&self, ir: String) -> (r: String)
        ensures
            r@ == ir@ + optimization_notes(self.level()),
    {
        let mut optimized = ir;
        match self.optimization_level {
            OptimizationLevel::Disabled => {},
            OptimizationLevel::Basic => {
                push_text(&mut optimized, "; Basic optimizations applied\n");
            },
            OptimizationLevel::Standard => {
                push_text(&mut optimized, "; Standard optimizations applied\n");
                push_text(&mut optimized, "; - Function inlining\n");
                push_text(&mut optimized, "; - Dead code elimination\n");
            },
            OptimizationLevel::Aggressive => {
                push_text(&mut optimized, "; Aggressive optimizations applied\n");
                push_text(&mut optimized, "; - Loop unrolling\n");
                push_text(&mut optimized, "; - Vectorization\n");
                push_text(&mut optimized, "; - Constant propagation\n");
            },
            OptimizationLevel::Maximum => {
                push_text(&mut optimized, "; Maximum optimizations applied\n");
                push_text(&mut optimized, "; - All available optimizations\n");
            },
        }
        assert(optimized@ =~= ir@ + optimization_notes(self.level()));
        optimized
    }

    /// The code generated for optimised IR (see `generated_query`).
    pub fn generate_native_code(&self, _ir: &String) -> (r: CompiledQuery)
        ensures
            generated_query(r, self.target(), self.simd()),
    {
        let functions = vec![owned("execute_query"), owned("scan_table")];
        let flags = vec![owned("-O2"), owned("-mavx2")];
        assert(views(functions@) =~= seq!["execute_query"@, "scan_table"@]);
        assert(views(flags@) =~= seq!["-O2"@, "-mavx2"@]);
        let now = utc_now_seconds();
        let created_at: u64 = if now >= 0 {
            now as u64
        } else {
            0
        };
        CompiledQuery {
            module: LLVMModule { name: owned("aurora_query"), functions },
            metadata: CompilationMetadata {
                source_plan: owned("QueryPlan"),
                target_architecture: self.context.target_triple.clone(),
                compilation_flags: flags,
                llvm_version: owned("15.0.0"),
                created_at,
            },
            performance: PerformanceCharacteristics {
                estimated_instructions: 1000,
                cache_miss_estimate: 50,
                branch_misprediction_estimate: 20,
                vectorization_efficiency: if self.simd_support.has_avx2 {
                    800
                } else {
                    300
                },
            },
        }
    }

    /// Runs a compiled query (simulated): one byte per hundred estimated
    /// instructions, counting up from zero and wrapping at 256.
    pub fn execute_compiled_query(&self, compiled_query: &CompiledQuery, parameters: &[u8]) -> (r: Result<Vec<u8>, JITError>)
        requires
            compiled_query.performance.estimated_instructions / 100 <= usize::MAX,
        ensures
            r matches Ok(v) && v@.len() == compiled_query.performance.estimated_instructions / 100 && forall|i: int|
                0 <= i < v@.len() ==> #[trigger] v@[i] == (i % 256) as u8,
    {
        let n = (compiled_query.performance.estimated_instructions / 100) as usize;
        let mut result: Vec<u8> = Vec::new();
        let mut i: usize = 0;
        while i < n
            invariant
                i <= n,
                result@.len() == i,
                forall|j: int| 0 <= j < i ==> #[trigger] result@[j] == (j % 256) as u8,
            decreases n - i,
        {
            result.push((i % 256) as u8);
            i = i + 1;
        }
        Ok(result)
    }

    /// The counters.
    pub fn stats(&self) -> (r: &CompilationStats)
        ensures
            *r == self.statistics(),
    {
        &self.stats
    }

    /// The SIMD support targeted.
    pub fn simd_support(&self) -> (r: &SIMDSupport)
        ensures
            *r == self.simd(),
    {
        &self.simd_support
    }
}

} // verus!
