use auroradb::data::{DataType, QueryStats};
use auroradb::engine::database;
use auroradb::engine::server::{server_health, HealthState};
use auroradb::jit::compiler::QueryHash;
use auroradb::jit::profiler::{OperationsProfile, PerformanceProfiler};

fn stats(hits: u64, misses: u64, rows: u64, bytes: u64) -> QueryStats {
    QueryStats {
        execution_time_ms: 0,
        rows_processed: rows,
        pages_accessed: 0,
        network_bytes: bytes,
        cache_hits: hits,
        cache_misses: misses,
    }
}

#[test]
fn query_stats_ratios() {
    assert_eq!(stats(3, 1, 0, 0).cache_hit_ratio(), 750);
    assert_eq!(stats(0, 0, 0, 0).cache_hit_ratio(), 0);
    assert_eq!(stats(0, 0, 4, 10).avg_bytes_per_row(), 2500);
    assert_eq!(stats(0, 0, 0, 10).avg_bytes_per_row(), 0);
}

#[test]
fn data_type_copy() {
    let t = DataType::Array(Box::new(DataType::Varchar(20)));
    assert!(matches!(t.duplicate(), DataType::Array(inner) if matches!(*inner, DataType::Varchar(20))));
}

#[test]
fn server_health_needs_database_health_and_a_free_connection() {
    let h = server_health(database::HealthState::Healthy, 3, 10, 5);
    assert_eq!(h.overall_status, HealthState::Healthy);
    assert_eq!(server_health(database::HealthState::Healthy, 10, 10, 5).overall_status, HealthState::Degraded);
    assert_eq!(server_health(database::HealthState::Degraded, 0, 10, 5).overall_status, HealthState::Degraded);
}

#[test]
fn operations_profile_adds_time() {
    let mut p = OperationsProfile::default();
    p.record_operation("scan", 5);
    p.record_operation("scan", 7);
    p.record_operation("join", 2);
    p.record_operation("other", 100);
    assert_eq!(p.scan_time, 12);
    assert_eq!(p.join_time, 2);
    assert_eq!(p.time_for("scan"), 12);
    assert_eq!(p.time_for("other"), 0);
    assert_eq!(p.io_time, 0);
}

#[test]
fn profiler_records_executions() {
    let mut profiler = PerformanceProfiler::new();
    assert!(profiler.start_profiling(QueryHash(1), false).is_none());
    let mut session = profiler.start_profiling(QueryHash(1), true).unwrap();
    profiler.record_operation_at(&mut session, "scan", 400, 10);
    profiler.record_operation_at(&mut session, "filter", 100, 11);
    assert_eq!(session.execution_timeline.len(), 2);
    assert_eq!(session.execution_timeline[1].operation_type, "filter");
    profiler.end_profiling(session, 3_000);
    let session = profiler.start_profiling(QueryHash(1), true).unwrap();
    profiler.end_profiling(session, 1_000);
    let p = profiler.get_profile(QueryHash(1)).unwrap();
    assert_eq!(p.execution_count, 2);
    assert_eq!(p.total_execution_time, 4_000);
    assert_eq!(p.min_execution_time, 1_000);
    assert_eq!(p.max_execution_time, 3_000);
    assert_eq!(p.average_execution_time, 2_000);
    assert!(p.min_execution_time <= p.average_execution_time && p.average_execution_time <= p.max_execution_time);
    assert_eq!(p.memory_usage_bytes, 0);
    assert!(profiler.get_profile(QueryHash(2)).is_none());
    let g = profiler.global_stats();
    assert_eq!(g.total_queries_executed, 2);
    assert_eq!(g.average_query_time, 2_000);
    let trends = profiler.analyze_trends();
    assert_eq!(trends.total_profiled_queries, 1);
    assert_eq!(trends.slow_queries_percentage, 0);
    assert_eq!(trends.recommended_jit_budget, 0);
}

#[test]
fn profiler_sampling_settings() {
    let mut profiler = PerformanceProfiler::new();
    assert_eq!(profiler.sampling_config().sampling_rate, 100);
    profiler.set_sampling_rate(5000);
    assert_eq!(profiler.sampling_config().sampling_rate, 1000);
    profiler.set_profiling_enabled(false);
    assert!(profiler.start_profiling(QueryHash(1), true).is_none());
}
