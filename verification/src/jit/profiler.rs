//! Profiling of query executions: per-operation time, a timeline of
//! samples, and per-query and global execution statistics.

use vstd::prelude::*;
use crate::ambient::utc_now_millis;
use crate::jit::compiler::QueryHash;
use crate::text::{owned, str_equal};

verus! {

/// The longest duration `std::time::Duration` holds, in nanoseconds.
pub const MAX_DURATION_NANOS: u128 = 18446744073709551615999999999;

/// Time spent in each kind of operation, in nanoseconds.
#[derive(Debug, Clone, Copy, PartialEq, Eq, Structural)]
pub struct OperationsProfile {
    pub scan_time: u128,
    pub filter_time: u128,
    pub join_time: u128,
    pub aggregate_time: u128,
    pub sort_time: u128,
    pub network_time: u128,
    pub io_time: u128,
}

/// The operation names a profile tracks.
pub open spec fn tracked_operation(operation: Seq<char>) -> bool {
    ||| operation == "scan"@
    ||| operation == "filter"@
    ||| operation == "join"@
    ||| operation == "aggregate"@
    ||| operation == "sort"@
    ||| operation == "network"@
    ||| operation == "io"@
}

/// The time the profile holds for an operation name (0 for a name it does
/// not track).
pub open spec fn time_of(p: OperationsProfile, operation: Seq<char>) -> int {
    if operation == "scan"@ {
        p.scan_time as int
    } else if operation == "filter"@ {
        p.filter_time as int
    } else if operation == "join"@ {
        p.join_time as int
    } else if operation == "aggregate"@ {
        p.aggregate_time as int
    } else if operation == "sort"@ {
        p.sort_time as int
    } else if operation == "network"@ {
        p.network_time as int
    } else if operation == "io"@ {
        p.io_time as int
    } else {
        0
    }
}

/// The profile with `d` more nanoseconds for the named operation (no change
/// for a name it does not track).
pub open spec fn with_time_added(p: OperationsProfile, operation: Seq<char>, d: u128) -> OperationsProfile {
    if operation == "scan"@ {
        OperationsProfile { scan_time: (p.scan_time + d) as u128, ..p }
    } else if operation == "filter"@ {
        OperationsProfile { filter_time: (p.filter_time + d) as u128, ..p }
    } else if operation == "join"@ {
        OperationsProfile { join_time: (p.join_time + d) as u128, ..p }
    } else if operation == "aggregate"@ {
        OperationsProfile { aggregate_time: (p.aggregate_time + d) as u128, ..p }
    } else if operation == "sort"@ {
        OperationsProfile { sort_time: (p.sort_time + d) as u128, ..p }
    } else if operation == "network"@ {
        OperationsProfile { network_time: (p.network_time + d) as u128, ..p }
    } else if operation == "io"@ {
        OperationsProfile { io_time: (p.io_time + d) as u128, ..p }
    } else {
        p
    }
}

impl OperationsProfile {
    /// No time in any operation.
    pub open spec fn default_spec() -> OperationsProfile {
        OperationsProfile {
            scan_time: 0,
            filter_time: 0,
            join_time: 0,
            aggregate_time: 0,
            sort_time: 0,
            network_time: 0,
            io_time: 0,
        }
    }
}

impl Default for OperationsProfile {
    /// No time in any operation.
    fn default() -> (r: Self)
        ensures
            r == (OperationsProfile {
                scan_time: 0,
                filter_time: 0,
                join_time: 0,
                aggregate_time: 0,
                sort_time: 0,
                network_time: 0,
                io_time: 0,
            }),
    {
        OperationsProfile {
            scan_time: 0,
            filter_time: 0,
            join_time: 0,
            aggregate_time: 0,
            sort_time: 0,
            network_time: 0,
            io_time: 0,
        }
    }
}

impl OperationsProfile {
    /// Adds `duration_nanos` to the time of the named operation ("scan",
    /// "filter", "join", "aggregate", "sort", "network" or "io"; any other
    /// name changes nothing).  The sum stays within what a `Duration` holds.
    pub fn record_operation(&mut self, operation: &str, duration_nanos: u128)
        requires
            time_of(*old(self), operation@) + duration_nanos <= MAX_DURATION_NANOS,
        ensures
            *final(self) == with_time_added(*old(self), operation@, duration_nanos),
    {
        if str_equal(operation, "scan") {
            self.scan_time = self.scan_time + duration_nanos;
        } else if str_equal(operation, "filter") {
            self.filter_time = self.filter_time + duration_nanos;
        } else if str_equal(operation, "join") {
            self.join_time = self.join_time + duration_nanos;
        } else if str_equal(operation, "aggregate") {
            self.aggregate_time = self.aggregate_time + duration_nanos;
        } else if str_equal(operation, "sort") {
            self.sort_time = self.sort_time + duration_nanos;
        } else if str_equal(operation, "network") {
            self.network_time = self.network_time + duration_nanos;
        } else if str_equal(operation, "io") {
            self.io_time = self.io_time + duration_nanos;
        }
    }

    /// The time the profile holds for the named operation.
    pub fn time_for(&self, operation: &str) -> (r: u128)
        ensures
            r == time_of(*self, operation@),
    {
        if str_equal(operation, "scan") {
            self.scan_time
        } else if str_equal(operation, "filter") {
            self.filter_time
        } else if str_equal(operation, "join") {
            self.join_time
        } else if str_equal(operation, "aggregate") {
            self.aggregate_time
        } else if str_equal(operation, "sort") {
            self.sort_time
        } else if str_equal(operation, "network") {
            self.network_time
        } else if str_equal(operation, "io") {
            self.io_time
        } else {
            0
        }
    }
}

/// One sample of a profiled execution's timeline.  The cache miss rate is
/// in thousandths.
#[derive(Debug)]
pub struct ExecutionSample {
    /// Milliseconds since the Unix epoch.
    pub timestamp: u64,
    pub operation_type: String,
    /// In nanoseconds.
    pub duration: u128,
    pub memory_delta: isize,
    pub cache_miss_rate: u64,
}

impl ExecutionSample {
    /// A copy of the sample.
    pub fn duplicate(&self) -> (r: Self)
        ensures
            r.timestamp == self.timestamp,
            r.operation_type@ == self.operation_type@,
            r.duration == self.duration,
            r.memory_delta == self.memory_delta,
            r.cache_miss_rate == self.cache_miss_rate,
    {
        ExecutionSample {
            timestamp: self.timestamp,
            operation_type: self.operation_type.clone(),
            duration: self.duration,
            memory_delta: self.memory_delta,
            cache_miss_rate: self.cache_miss_rate,
        }
    }
}

/// The plain values of a sample.
pub open spec fn sample_view(s: ExecutionSample) -> (u64, Seq<char>, u128, isize, u64) {
    (s.timestamp, s.operation_type@, s.duration, s.memory_delta, s.cache_miss_rate)
}

/// The plain values of a timeline.
pub open spec fn timeline_view(v: Seq<ExecutionSample>) -> Seq<(u64, Seq<char>, u128, isize, u64)> {
    v.map_values(|s: ExecutionSample| sample_view(s))
}

fn copy_timeline(v: &Vec<ExecutionSample>) -> (r: Vec<ExecutionSample>)
    ensures
        timeline_view(r@) == timeline_view(v@),
{
    let mut out: Vec<ExecutionSample> = Vec::new();
    let mut i: usize = 0;
    while i < v.len()
        invariant
            i <= v@.len(),
            timeline_view(out@) == timeline_view(v@.take(i as int)),
        decreases v.len() - i,
    {
        let ghost before = out@;
        out.push(v[i].duplicate());
        assert(timeline_view(out@) =~= timeline_view(before).push(sample_view(v@[i as int])));
        assert(v@.take(i as int + 1) =~= v@.take(i as int).push(v@[i as int]));
        assert(timeline_view(v@.take(i as int + 1)) =~= timeline_view(v@.take(i as int)).push(sample_view(v@[i as int])));
        i = i + 1;
    }
    assert(v@.take(i as int) =~= v@);
    out
}

/// Sampling settings.  The sampling rate is the share of executions
/// profiled, in thousandths.
#[derive(Debug, Clone, Copy, PartialEq, Eq, Structural)]
pub struct SamplingConfig {
    pub enable_profiling: bool,
    pub sampling_rate: u64,
    pub max_samples_per_query: usize,
    pub enable_hardware_counters: bool,
    pub profile_memory_usage: bool,
    pub profile_cache_behavior: bool,
}

/// A profiled execution under way.  The caller that runs the execution
/// measures its time.
#[derive(Debug)]
pub struct ProfileSession {
    pub query_hash: QueryHash,
    pub operations_profile: OperationsProfile,
    pub execution_timeline: Vec<ExecutionSample>,
    pub memory_start: usize,
}

/// What the profiler knows of one query's executions; times are in
/// nanoseconds.
#[derive(Debug)]
pub struct ProfileData {
    pub query_hash: QueryHash,
    pub execution_count: u64,
    pub total_execution_time: u128,
    pub min_execution_time: u128,
    pub max_execution_time: u128,
    pub average_execution_time: u128,
    pub memory_usage_bytes: usize,
    pub cache_misses: u64,
    pub branch_mispredictions: u64,
    pub operations_profile: OperationsProfile,
    pub execution_timeline: Vec<ExecutionSample>,
}

/// Statistics over all profiled executions; times in nanoseconds, rates in
/// thousandths.
#[derive(Debug, Clone, Copy, PartialEq, Eq, Structural)]
pub struct GlobalStats {
    pub total_queries_executed: u64,
    pub total_execution_time: u128,
    pub average_query_time: u128,
    pub peak_memory_usage: usize,
    pub cache_hit_rate: u64,
    pub vectorization_rate: u64,
    pub jit_compilation_rate: u64,
}

/// The memory figure the profiler reads at the start and end of an
/// execution (a fixed 50 MB).
pub const CURRENT_MEMORY: usize = 52428800;

/// The statistics of a query's executions: count, total, least, greatest
/// and mean time (rounded down), the memory and operations of the last
/// execution.  The sums are kept within what a `Duration` holds.
pub open spec fn profile_ok(p: ProfileData) -> bool {
    &&& p.total_execution_time <= MAX_DURATION_NANOS
    &&& p.min_execution_time <= MAX_DURATION_NANOS
    &&& p.execution_count > 0
    &&& p.execution_count * p.min_execution_time <= p.total_execution_time
    &&& p.total_execution_time <= p.execution_count * p.max_execution_time
    &&& p.average_execution_time == p.total_execution_time as int / p.execution_count as int
}

/// No two profiles share a query hash.
pub open spec fn hashes_unique(s: Seq<ProfileData>) -> bool {
    forall|i: int, j: int| 0 <= i < j < s.len() ==> #[trigger] s[i].query_hash != #[trigger] s[j].query_hash
}

/// Whether a profile has the hash.
pub open spec fn has_profile(s: Seq<ProfileData>, h: QueryHash) -> bool {
    exists|i: int| 0 <= i < s.len() && #[trigger] s[i].query_hash == h
}

/// The place of the profile with the hash.
pub open spec fn profile_index(s: Seq<ProfileData>, h: QueryHash) -> int {
    choose|i: int| 0 <= i < s.len() && #[trigger] s[i].query_hash == h
}

proof fn lemma_profile_index(s: Seq<ProfileData>, h: QueryHash, i: int)
    requires
        hashes_unique(s),
        0 <= i < s.len(),
        s[i].query_hash == h,
    ensures
        has_profile(s, h),
        profile_index(s, h) == i,
{
    assert(has_profile(s, h));
    let k = profile_index(s, h);
    if k < i {
        assert(s[k].query_hash != s[i].query_hash);
    } else if i < k {
        assert(s[i].query_hash != s[k].query_hash);
    }
}

/// The memory an execution used: what was read at its end less what was
/// read at its start (0 when memory is not profiled).
pub open spec fn memory_used(config: SamplingConfig, session: ProfileSession) -> usize {
    if config.profile_memory_usage {
        if CURRENT_MEMORY >= session.memory_start {
            (CURRENT_MEMORY - session.memory_start) as usize
        } else {
            0
        }
    } else {
        0
    }
}

/// `p` is the profile `before` (or a fresh one, when there was none) after
/// one more execution of time `t` that used `mem` bytes and ran `session`.
pub open spec fn profile_after(
    before: Option<ProfileData>,
    p: ProfileData,
    h: QueryHash,
    t: u128,
    mem: usize,
    session: ProfileSession,
) -> bool {
    let (count, total, min, max, misses, mispredictions) = match before {
        Some(b) => (
            b.execution_count,
            b.total_execution_time,
            b.min_execution_time,
            b.max_execution_time,
            b.cache_misses,
            b.branch_mispredictions,
        ),
        None => (0u64, 0u128, MAX_DURATION_NANOS, 0u128, 0u64, 0u64),
    };
    &&& p.query_hash == h
    &&& p.execution_count == count + 1
    &&& p.total_execution_time == total + t
    &&& p.min_execution_time == if t < min {
        t
    } else {
        min
    }
    &&& p.max_execution_time == if t > max {
        t
    } else {
        max
    }
    &&& p.average_execution_time == (total + t) / (count + 1)
    &&& p.memory_usage_bytes == mem
    &&& p.cache_misses == misses
    &&& p.branch_mispredictions == mispredictions
    &&& p.operations_profile == session.operations_profile
    &&& timeline_view(p.execution_timeline@) == timeline_view(session.execution_timeline@)
}

/// The place of the profile with the hash, if any.
fn position_of_profile(profiles: &Vec<ProfileData>, h: QueryHash) -> (r: Option<usize>)
    requires
        hashes_unique(profiles@),
    ensures
        r is None <==> !has_profile(profiles@, h),
        r matches Some(i) ==> i < profiles@.len() && profiles@[i as int].query_hash == h && profile_index(profiles@, h) == i,
{
    let mut i: usize = 0;
    while i < profiles.len()
        invariant
            i <= profiles@.len(),
            hashes_unique(profiles@),
            forall|j: int| 0 <= j < i ==> #[trigger] profiles@[j].query_hash != h,
        decreases profiles.len() - i,
    {
        if profiles[i].query_hash == h {
            proof {
                lemma_profile_index(profiles@, h, i as int);
            }
            return Some(i);
        }
        i = i + 1;
    }
    None
}

proof fn lemma_unique_update(s: Seq<ProfileData>, i: int, p: ProfileData)
    requires
        hashes_unique(s),
        0 <= i < s.len(),
        p.query_hash == s[i].query_hash,
    ensures
        hashes_unique(s.update(i, p)),
{
    let t = s.update(i, p);
    assert forall|a: int, b: int| 0 <= a < b < t.len() implies #[trigger] t[a].query_hash != #[trigger] t[b].query_hash by {
        assert(t[a].query_hash == s[a].query_hash && t[b].query_hash == s[b].query_hash);
    }
}

proof fn lemma_unique_push(s: Seq<ProfileData>, p: ProfileData)
    requires
        hashes_unique(s),
        !has_profile(s, p.query_hash),
    ensures
        hashes_unique(s.push(p)),
{
    let t = s.push(p);
    assert forall|a: int, b: int| 0 <= a < b < t.len() implies #[trigger] t[a].query_hash != #[trigger] t[b].query_hash by {
        assert(t[a] == s[a]);
        if b < s.len() {
            assert(t[b] == s[b]);
        }
    }
}

proof fn lemma_same_elsewhere(s: Seq<ProfileData>, t: Seq<ProfileData>, i: int, h2: QueryHash)
    requires
        hashes_unique(s),
        0 <= i < s.len(),
        t.len() == s.len(),
        t[i].query_hash == s[i].query_hash,
        h2 != s[i].query_hash,
        forall|j: int| 0 <= j < s.len() && j != i ==> #[trigger] t[j] == s[j],
    ensures
        has_profile(t, h2) == has_profile(s, h2),
        has_profile(s, h2) ==> t[profile_index(t, h2)] == s[profile_index(s, h2)],
{
    if has_profile(s, h2) {
        let k = profile_index(s, h2);
        assert(k != i);
        assert(t[k] == s[k]);
        assert(has_profile(t, h2));
        let k2 = profile_index(t, h2);
        assert(k2 != i);
        assert(t[k2] == s[k2]);
        lemma_profile_index(s, h2, k2);
    }
    if has_profile(t, h2) {
        let k2 = profile_index(t, h2);
        assert(k2 != i);
        assert(s[k2] == t[k2]);
        assert(has_profile(s, h2));
    }
}

proof fn lemma_same_after_push(s: Seq<ProfileData>, p: ProfileData, h2: QueryHash)
    requires
        hashes_unique(s),
        h2 != p.query_hash,
    ensures
        has_profile(s.push(p), h2) == has_profile(s, h2),
        has_profile(s, h2) ==> s.push(p)[profile_index(s.push(p), h2)] == s[profile_index(s, h2)],
{
    let t = s.push(p);
    if has_profile(s, h2) {
        let k = profile_index(s, h2);
        assert(t[k] == s[k]);
        assert(has_profile(t, h2));
        let k2 = profile_index(t, h2);
        assert(k2 < s.len());
        assert(t[k2] == s[k2]);
        lemma_profile_index(s, h2, k2);
    }
    if has_profile(t, h2) {
        let k2 = profile_index(t, h2);
        assert(k2 < s.len());
        assert(s[k2] == t[k2]);
        assert(has_profile(s, h2));
    }
}

proof fn lemma_memory_fits(config: SamplingConfig, session: ProfileSession)
    ensures
        memory_used(config, session) <= CURRENT_MEMORY,
{
}

proof fn lemma_profile_step(c: int, total: int, min: int, max: int, t: int)
    requires
        c > 0,
        0 <= min,
        0 <= t,
        c * min <= total,
        total <= c * max,
    ensures
        (c + 1) * (if t < min { t } else { min }) <= total + t,
        total + t <= (c + 1) * (if t > max { t } else { max }),
{
    let m2 = if t < min { t } else { min };
    let x2 = if t > max { t } else { max };
    assert(c * m2 <= c * min) by (nonlinear_arith)
        requires
            c > 0,
            m2 <= min,
    ;
    assert(c * max <= c * x2) by (nonlinear_arith)
        requires
            c > 0,
            max <= x2,
    ;
    assert((c + 1) * m2 == c * m2 + m2) by (nonlinear_arith);
    assert((c + 1) * x2 == c * x2 + x2) by (nonlinear_arith);
}

/// The share of profiled queries found slow, memory-hungry and worth
/// vectorizing, in thousandths of a percent (rounded down), and the number
/// of queries worth compiling (1% of them, rounded down).
#[derive(Debug, Clone, Copy, PartialEq, Eq, Structural)]
pub struct PerformanceTrends {
    pub total_profiled_queries: u64,
    pub slow_queries_percentage: u64,
    pub memory_hungry_queries_percentage: u64,
    pub vectorization_candidates_percentage: u64,
    pub recommended_jit_budget: u64,
}

/// A query whose mean time passes one second (in whole milliseconds).
pub open spec fn is_slow(p: ProfileData) -> bool {
    p.average_execution_time / 1000000 > 1000
}

/// A query whose last execution used more than 50 MB.
pub open spec fn is_memory_hungry(p: ProfileData) -> bool {
    p.memory_usage_bytes > 52428800
}

/// The time the last execution spent scanning, filtering and aggregating.
pub open spec fn vectorizable_time(p: ProfileData) -> int {
    p.operations_profile.scan_time + p.operations_profile.filter_time + p.operations_profile.aggregate_time
}

/// A query whose scanning, filtering and aggregating take more than half its
/// mean time (both in whole milliseconds).
pub open spec fn is_vectorization_candidate(p: ProfileData) -> bool {
    2 * (vectorizable_time(p) / 1000000) > p.average_execution_time / 1000000
}

/// How many profiles meet each test: slow, memory-hungry, vectorizable.
pub open spec fn trend_counts(s: Seq<ProfileData>) -> (nat, nat, nat)
    decreases s.len(),
{
    if s.len() == 0 {
        (0, 0, 0)
    } else {
        let (a, b, c) = trend_counts(s.drop_last());
        let p = s.last();
        (
            a + if is_slow(p) { 1nat } else { 0nat },
            b + if is_memory_hungry(p) { 1nat } else { 0nat },
            c + if is_vectorization_candidate(p) { 1nat } else { 0nat },
        )
    }
}

/// `count` of `total` in thousandths of a percent, rounded down; 0 when
/// there is nothing.
pub open spec fn per_cent_mille(count: nat, total: nat) -> int {
    if total > 0 {
        (count * 100000) as int / total as int
    } else {
        0
    }
}

proof fn lemma_trend_counts_bound(s: Seq<ProfileData>)
    ensures
        trend_counts(s).0 <= s.len(),
        trend_counts(s).1 <= s.len(),
        trend_counts(s).2 <= s.len(),
    decreases s.len(),
{
    if s.len() > 0 {
        lemma_trend_counts_bound(s.drop_last());
    }
}

/// A profile's mean time lies between its least and its greatest time.
pub proof fn law_mean_between_extremes(p: ProfileData)
    requires
        profile_ok(p),
    ensures
        p.min_execution_time <= p.average_execution_time <= p.max_execution_time,
{
    let c = p.execution_count as int;
    let t = p.total_execution_time as int;
    let lo = p.min_execution_time as int;
    let hi = p.max_execution_time as int;
    assert(lo <= t / c && t / c <= hi) by (nonlinear_arith)
        requires
            c > 0,
            c * lo <= t,
            t <= c * hi,
            lo >= 0,
    {
        assert(t / c * c <= t);
        assert(t < (t / c + 1) * c);
        if lo > t / c {
            assert(lo >= t / c + 1);
            assert(c * lo >= c * (t / c + 1));
        }
        if t / c > hi {
            assert(t / c >= hi + 1);
            assert(c * (t / c) >= c * (hi + 1));
        }
    }
}

/// Two profiles hold the same values.
pub open spec fn same_profile(a: ProfileData, b: ProfileData) -> bool {
    &&& a.query_hash == b.query_hash
    &&& a.execution_count == b.execution_count
    &&& a.total_execution_time == b.total_execution_time
    &&& a.min_execution_time == b.min_execution_time
    &&& a.max_execution_time == b.max_execution_time
    &&& a.average_execution_time == b.average_execution_time
    &&& a.memory_usage_bytes == b.memory_usage_bytes
    &&& a.cache_misses == b.cache_misses
    &&& a.branch_mispredictions == b.branch_mispredictions
    &&& a.operations_profile == b.operations_profile
    &&& timeline_view(a.execution_timeline@) == timeline_view(b.execution_timeline@)
}

/// Records query executions and what they cost.
#[derive(Debug)]
pub struct PerformanceProfiler {
    profiles: Vec<ProfileData>,
    global_stats: GlobalStats,
    sampling_config: SamplingConfig,
}

impl PerformanceProfiler {
    /// The profiles, one per query hash.
    pub closed spec fn profiles(&self) -> Seq<ProfileData> {
        self.profiles@
    }

    /// The global statistics.
    pub closed spec fn stats(&self) -> GlobalStats {
        self.global_stats
    }

    /// The sampling settings.
    pub closed spec fn sampling(&self) -> SamplingConfig {
        self.sampling_config
    }

    /// The profile of a query, if any.
    pub open spec fn profile_of(&self, h: QueryHash) -> Option<ProfileData> {
        if has_profile(self.profiles(), h) {
            Some(self.profiles()[profile_index(self.profiles(), h)])
        } else {
            None
        }
    }

    /// Profiles are unique by hash and each holds consistent statistics;
    /// the global mean is the total over the count.
    pub open spec fn wf(&self) -> bool {
        &&& hashes_unique(self.profiles())
        &&& forall|i: int| 0 <= i < self.profiles().len() ==> #[trigger] profile_ok(self.profiles()[i])
        &&& self.stats().total_execution_time <= MAX_DURATION_NANOS
    }

    /// A profiler without profiles that samples 10% of executions, keeps up
    /// to 100 samples a query, and profiles memory, cache behaviour and
    /// hardware counters.
    pub fn new() -> (r: Self)
        ensures
            r.wf(),
            r.profiles().len() == 0,
            r.stats() == (GlobalStats {
                total_queries_executed: 0,
                total_execution_time: 0,
                average_query_time: 0,
                peak_memory_usage: 0,
                cache_hit_rate: 0,
                vectorization_rate: 0,
                jit_compilation_rate: 0,
            }),
            r.sampling() == (SamplingConfig {
                enable_profiling: true,
                sampling_rate: 100,
                max_samples_per_query: 100,
                enable_hardware_counters: true,
                profile_memory_usage: true,
                profile_cache_behavior: true,
            }),
    {
        PerformanceProfiler {
            profiles: Vec::new(),
            global_stats: GlobalStats {
                total_queries_executed: 0,
                total_execution_time: 0,
                average_query_time: 0,
                peak_memory_usage: 0,
                cache_hit_rate: 0,
                vectorization_rate: 0,
                jit_compilation_rate: 0,
            },
            sampling_config: SamplingConfig {
                enable_profiling: true,
                sampling_rate: 100,
                max_samples_per_query: 100,
                enable_hardware_counters: true,
                profile_memory_usage: true,
                profile_cache_behavior: true,
            },
        }
    }

    /// The sampling settings.
    pub fn sampling_config(&self) -> (r: SamplingConfig)
        ensures
            r == self.sampling(),
    {
        self.sampling_config
    }

    /// Adds an operation's time to the session (see
    /// `OperationsProfile::record_operation`) and, while the timeline holds
    /// fewer samples than the configured limit, a sample at `now_ms` for it
    /// (no memory change, no cache misses).
    pub fn record_operation_at(&self, session: &mut ProfileSession, operation: &str, duration: u128, now_ms: u64)
        requires
            time_of(old(session).operations_profile, operation@) + duration <= MAX_DURATION_NANOS,
        ensures
            final(session).query_hash == old(session).query_hash,
            final(session).memory_start == old(session).memory_start,
            final(session).operations_profile == with_time_added(old(session).operations_profile, operation@, duration),
            timeline_view(final(session).execution_timeline@) == if old(session).execution_timeline@.len()
                < self.sampling().max_samples_per_query {
                timeline_view(old(session).execution_timeline@).push((now_ms, operation@, duration, 0isize, 0u64))
            } else {
                timeline_view(old(session).execution_timeline@)
            },
    {
        session.operations_profile.record_operation(operation, duration);
        if session.execution_timeline.len() < self.sampling_config.max_samples_per_query {
            let ghost before = session.execution_timeline@;
            session.execution_timeline.push(
                ExecutionSample {
                    timestamp: now_ms,
                    operation_type: owned(operation),
                    duration,
                    memory_delta: 0,
                    cache_miss_rate: 0,
                },
            );
            assert(timeline_view(session.execution_timeline@) =~= timeline_view(before).push(
                (now_ms, operation@, duration, 0isize, 0u64),
            ));
        }
    }

    /// As `record_operation_at`, at the time the system clock gives (a
    /// clock before the Unix epoch reads as 0).
    pub fn record_operation(&self, session: &mut ProfileSession, operation: &str, duration: u128)
        requires
            time_of(old(session).operations_profile, operation@) + duration <= MAX_DURATION_NANOS,
        ensures
            final(session).query_hash == old(session).query_hash,
            final(session).memory_start == old(session).memory_start,
            final(session).operations_profile == with_time_added(old(session).operations_profile, operation@, duration),
            exists|now_ms: u64|
                timeline_view(#[trigger] final(session).execution_timeline@) == if old(session).execution_timeline@.len()
                    < self.sampling().max_samples_per_query {
                    timeline_view(old(session).execution_timeline@).push((now_ms, operation@, duration, 0isize, 0u64))
                } else {
                    timeline_view(old(session).execution_timeline@)
                },
    {
        let t = utc_now_millis();
        let now_ms: u64 = if t < 0 {
            0
        } else {
            t as u64
        };
        self.record_operation_at(session, operation, duration, now_ms);
    }

    /// Records the end of a profiled execution that took `execution_time`
    /// nanoseconds: the query's profile (a fresh one for a query not seen
    /// before) counts it, adds its time, keeps the least and greatest time
    /// and the mean (rounded down), and takes the execution's memory,
    /// operations and timeline; the global statistics count it and keep
    /// the peak memory.  Sums stay within what a `Duration` holds.
    pub fn end_profiling(&mut self, session: ProfileSession, execution_time: u128)
        requires
            old(self).wf(),
            execution_time <= MAX_DURATION_NANOS,
            old(self).profile_of(session.query_hash) matches Some(p) ==> p.execution_count < u64::MAX
                && p.total_execution_time + execution_time <= MAX_DURATION_NANOS,
            old(self).stats().total_queries_executed < u64::MAX,
            old(self).stats().total_execution_time + execution_time <= MAX_DURATION_NANOS,
        ensures
            final(self).wf(),
            final(self).sampling() == old(self).sampling(),
            final(self).profile_of(session.query_hash) matches Some(p) && profile_after(
                old(self).profile_of(session.query_hash),
                p,
                session.query_hash,
                execution_time,
                memory_used(old(self).sampling(), session),
                session,
            ),
            forall|h: QueryHash| h != session.query_hash ==> #[trigger] final(self).profile_of(h) == old(self).profile_of(h),
            final(self).stats() == (GlobalStats {
                total_queries_executed: (old(self).stats().total_queries_executed + 1) as u64,
                total_execution_time: (old(self).stats().total_execution_time + execution_time) as u128,
                average_query_time: ((old(self).stats().total_execution_time + execution_time) / (
                old(self).stats().total_queries_executed + 1)) as u128,
                peak_memory_usage: if memory_used(old(self).sampling(), session) > old(self).stats().peak_memory_usage {
                    memory_used(old(self).sampling(), session)
                } else {
                    old(self).stats().peak_memory_usage
                },
                ..old(self).stats()
            }),
    {
        let h = session.query_hash;
        let mem: usize = if self.sampling_config.profile_memory_usage {
            if CURRENT_MEMORY >= session.memory_start {
                CURRENT_MEMORY - session.memory_start
            } else {
                0
            }
        } else {
            0
        };
        let t = execution_time;
        let ghost before = self.profiles@;
        proof {
            lemma_memory_fits(self.sampling_config, session);
        }
        let g = self.global_stats;
        self.global_stats.total_queries_executed = g.total_queries_executed + 1;
        self.global_stats.total_execution_time = g.total_execution_time + t;
        self.global_stats.average_query_time = self.global_stats.total_execution_time
            / self.global_stats.total_queries_executed as u128;
        if mem > g.peak_memory_usage {
            self.global_stats.peak_memory_usage = mem;
        }
        match position_of_profile(&self.profiles, h) {
            Some(i) => {
                let mut p = self.profiles.remove(i);
                let ghost b = p;
                assert(profile_ok(b)) by {
                    assert(before[i as int] == b);
                }
                proof {
                    lemma_profile_step(b.execution_count as int, b.total_execution_time as int, b.min_execution_time as int,
                        b.max_execution_time as int, t as int);
                }
                p.execution_count = p.execution_count + 1;
                p.total_execution_time = p.total_execution_time + t;
                if t < p.min_execution_time {
                    p.min_execution_time = t;
                }
                if t > p.max_execution_time {
                    p.max_execution_time = t;
                }
                p.average_execution_time = p.total_execution_time / p.execution_count as u128;
                p.memory_usage_bytes = mem;
                p.operations_profile = session.operations_profile;
                p.execution_timeline = session.execution_timeline;
                self.profiles.insert(i, p);
                proof {
                    assert(self.profiles@ =~= before.update(i as int, p));
                    lemma_unique_update(before, i as int, p);
                    lemma_profile_index(self.profiles@, h, i as int);
                    assert forall|h2: QueryHash| h2 != h implies #[trigger] self.profile_of(h2) == old(self).profile_of(h2) by {
                        lemma_same_elsewhere(before, self.profiles@, i as int, h2);
                    }
                }
            },
            None => {
                let p = ProfileData {
                    query_hash: h,
                    execution_count: 1,
                    total_execution_time: t,
                    min_execution_time: t,
                    max_execution_time: t,
                    average_execution_time: t,
                    memory_usage_bytes: mem,
                    cache_misses: 0,
                    branch_mispredictions: 0,
                    operations_profile: session.operations_profile,
                    execution_timeline: session.execution_timeline,
                };
                self.profiles.push(p);
                proof {
                    lemma_unique_push(before, p);
                    lemma_profile_index(self.profiles@, h, before.len() as int);
                    assert forall|h2: QueryHash| h2 != h implies #[trigger] self.profile_of(h2) == old(self).profile_of(h2) by {
                        lemma_same_after_push(before, p, h2);
                    }
                }
            },
        }
    }

    /// A copy of the profile of a query, if it has one.
    pub fn get_profile(&self, query_hash: QueryHash) -> (r: Option<ProfileData>)
        requires
            self.wf(),
        ensures
            match self.profile_of(query_hash) {
                None => r is None,
                Some(p) => r matches Some(q) && same_profile(q, p),
            },
    {
        match position_of_profile(&self.profiles, query_hash) {
            None => None,
            Some(i) => {
                let p = &self.profiles[i];
                Some(
                    ProfileData {
                        query_hash: p.query_hash,
                        execution_count: p.execution_count,
                        total_execution_time: p.total_execution_time,
                        min_execution_time: p.min_execution_time,
                        max_execution_time: p.max_execution_time,
                        average_execution_time: p.average_execution_time,
                        memory_usage_bytes: p.memory_usage_bytes,
                        cache_misses: p.cache_misses,
                        branch_mispredictions: p.branch_mispredictions,
                        operations_profile: p.operations_profile,
                        execution_timeline: copy_timeline(&p.execution_timeline),
                    },
                )
            },
        }
    }

    /// The global statistics.
    pub fn global_stats(&self) -> (r: GlobalStats)
        ensures
            r == self.stats(),
    {
        self.global_stats
    }

    /// Turns profiling on or off.
    pub fn set_profiling_enabled(&mut self, enabled: bool)
        requires
            old(self).wf(),
        ensures
            final(self).wf(),
            final(self).sampling() == (SamplingConfig { enable_profiling: enabled, ..old(self).sampling() }),
            final(self).profiles() == old(self).profiles(),
            final(self).stats() == old(self).stats(),
    {
        self.sampling_config.enable_profiling = enabled;
    }

    /// Sets the share of executions to sample, in thousandths, limited to
    /// 1000.
    pub fn set_sampling_rate(&mut self, rate: u64)
        requires
            old(self).wf(),
        ensures
            final(self).wf(),
            final(self).sampling() == (SamplingConfig {
                sampling_rate: if rate > 1000 {
                    1000
                } else {
                    rate
                },
                ..old(self).sampling()
            }),
            final(self).profiles() == old(self).profiles(),
            final(self).stats() == old(self).stats(),
    {
        self.sampling_config.sampling_rate = if rate > 1000 {
            1000
        } else {
            rate
        };
    }

    /// The trends of the profiled queries (see `PerformanceTrends`).  The
    /// time each profile's last execution spent scanning, filtering and
    /// aggregating is within what a `Duration` holds.
    pub fn analyze_trends(&self) -> (r: PerformanceTrends)
        requires
            forall|i: int| 0 <= i < self.profiles().len() ==> vectorizable_time(#[trigger] self.profiles()[i]) <= MAX_DURATION_NANOS,
        ensures
            ({
                let (slow, hungry, vector) = trend_counts(self.profiles());
                let n = self.profiles().len();
                r == PerformanceTrends {
                    total_profiled_queries: n as u64,
                    slow_queries_percentage: per_cent_mille(slow, n) as u64,
                    memory_hungry_queries_percentage: per_cent_mille(hungry, n) as u64,
                    vectorization_candidates_percentage: per_cent_mille(vector, n) as u64,
                    recommended_jit_budget: (n / 100) as u64,
                }
            }),
    {
        let mut slow: u64 = 0;
        let mut hungry: u64 = 0;
        let mut vector: u64 = 0;
        let mut i: usize = 0;
        while i < self.profiles.len()
            invariant
                i <= self.profiles@.len(),
                forall|k: int| 0 <= k < self.profiles().len() ==> vectorizable_time(#[trigger] self.profiles()[k]) <= MAX_DURATION_NANOS,
                (slow as nat, hungry as nat, vector as nat) == trend_counts(self.profiles@.take(i as int)),
                slow <= i && hungry <= i && vector <= i,
            decreases self.profiles.len() - i,
        {
            assert(self.profiles@.take(i as int + 1).drop_last() =~= self.profiles@.take(i as int));
            let p = &self.profiles[i];
            assert(vectorizable_time(self.profiles()[i as int]) <= MAX_DURATION_NANOS);
            if p.average_execution_time / 1000000 > 1000 {
                slow = slow + 1;
            }
            if p.memory_usage_bytes > 52428800 {
                hungry = hungry + 1;
            }
            let ops = p.operations_profile.scan_time + p.operations_profile.filter_time + p.operations_profile.aggregate_time;
            if 2 * (ops / 1000000) > p.average_execution_time / 1000000 {
                vector = vector + 1;
            }
            i = i + 1;
        }
        assert(self.profiles@.take(i as int) =~= self.profiles@);
        let n = self.profiles.len() as u64;
        let pct = |c: u64| -> (r: u64)
            requires
                c <= n,
            ensures
                r == per_cent_mille(c as nat, n as nat),
            {
                if n > 0 {
                    assert((c as u128 * 100000) as int / n as int <= 100000) by (nonlinear_arith)
                        requires
                            c <= n,
                            n > 0,
                    ;
                    (c as u128 * 100000 / n as u128) as u64
                } else {
                    0
                }
            };
        PerformanceTrends {
            total_profiled_queries: n,
            slow_queries_percentage: pct(slow),
            memory_hungry_queries_percentage: pct(hungry),
            vectorization_candidates_percentage: pct(vector),
            recommended_jit_budget: n / 100,
        }
    }

    /// A session for an execution of the query, when profiling is on and
    /// the execution was drawn for sampling (`sampled`); it starts with an
    /// empty operations profile and timeline, and the memory figure when
    /// memory is profiled (0 otherwise).
    pub fn start_profiling(&self, query_hash: QueryHash, sampled: bool) -> (r: Option<ProfileSession>)
        ensures
            !(self.sampling().enable_profiling && sampled) <==> r is None,
            r matches Some(s) ==> s.query_hash == query_hash && s.operations_profile == OperationsProfile::default_spec()
                && s.execution_timeline@.len() == 0 && s.memory_start == if self.sampling().profile_memory_usage {
                CURRENT_MEMORY
            } else {
                0
            },
    {
        if !self.sampling_config.enable_profiling || !sampled {
            return None;
        }
        Some(
            ProfileSession {
                query_hash,
                operations_profile: OperationsProfile::default(),
                execution_timeline: Vec::new(),
                memory_start: if self.sampling_config.profile_memory_usage {
                    CURRENT_MEMORY
                } else {
                    0
                },
            },
        )
    }
}

/// Recording a duration for an operation adds it to what the profile then
/// holds for that operation (a tracked name), and leaves the time of every
/// other name as it was.
pub proof fn law_recorded_time_adds_up(p: OperationsProfile, operation: Seq<char>, other: Seq<char>, d: u128)
    requires
        time_of(p, operation) + d <= MAX_DURATION_NANOS,
    ensures
        tracked_operation(operation) ==> time_of(with_time_added(p, operation, d), operation) == time_of(p, operation)
            + d,
        other != operation ==> time_of(with_time_added(p, operation, d), other) == time_of(p, other),
{
}

} // verus!
