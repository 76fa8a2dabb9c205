use auroradb::jit::cache::{CacheConfig, CacheError, JITCache};
use auroradb::jit::compiler::{
    CompilationMetadata, CompiledQuery, LLVMModule, PerformanceCharacteristics, QueryHash,
};

fn query(plan: &str, efficiency: u32) -> CompiledQuery {
    CompiledQuery {
        module: LLVMModule { name: "q".to_string(), functions: vec!["f".to_string()] },
        metadata: CompilationMetadata {
            source_plan: plan.to_string(),
            target_architecture: "x86_64".to_string(),
            compilation_flags: Vec::new(),
            llvm_version: "17".to_string(),
            created_at: 0,
        },
        performance: PerformanceCharacteristics {
            estimated_instructions: 10,
            cache_miss_estimate: 0,
            branch_misprediction_estimate: 0,
            vectorization_efficiency: efficiency,
        },
    }
}

fn config(max_entries: usize, lru: bool) -> CacheConfig {
    CacheConfig {
        max_entries,
        max_memory_mb: 512,
        entry_ttl_seconds: 3600,
        enable_lru: lru,
        enable_dependency_tracking: true,
        performance_threshold: 1200,
    }
}

#[test]
fn cache_put_then_get_returns_the_query() {
    let mut cache = JITCache::new(config(10, true));
    cache.put_at(QueryHash(1), query("SeqScan users", 500), 100).unwrap();
    let found = cache.get_at(&QueryHash(1), 200).unwrap();
    assert_eq!(found.metadata.source_plan, "SeqScan users");
    let stats = cache.stats();
    assert_eq!(stats.cache_hits, 1);
    assert_eq!(stats.cache_misses, 0);
    assert_eq!(stats.total_entries, 1);
    assert_eq!(stats.hit_rate, 1000);
}

#[test]
fn cache_miss_counts() {
    let mut cache = JITCache::new(config(10, true));
    assert!(cache.get_at(&QueryHash(9), 0).is_none());
    let stats = cache.stats();
    assert_eq!(stats.cache_misses, 1);
    assert_eq!(stats.hit_rate, 0);
}

#[test]
fn cache_entry_expires_after_ttl() {
    let mut cache = JITCache::new(config(10, true));
    cache.put_at(QueryHash(1), query("p", 0), 100).unwrap();
    assert!(cache.get_at(&QueryHash(1), 100 + 3600).is_some());
    assert!(cache.get_at(&QueryHash(1), 100 + 3601).is_none());
    assert_eq!(cache.stats().evictions, 1);
    assert!(cache.get_at(&QueryHash(1), 100).is_none());
}

#[test]
fn cache_evicts_least_recently_used_at_the_entry_limit() {
    let mut cache = JITCache::new(config(2, true));
    cache.put_at(QueryHash(1), query("a", 0), 0).unwrap();
    cache.put_at(QueryHash(2), query("b", 0), 0).unwrap();
    assert!(cache.get_at(&QueryHash(1), 1).is_some());
    cache.put_at(QueryHash(3), query("c", 0), 2).unwrap();
    assert!(cache.get_at(&QueryHash(2), 3).is_none());
    assert!(cache.get_at(&QueryHash(1), 3).is_some());
    assert!(cache.get_at(&QueryHash(3), 3).is_some());
    assert_eq!(cache.stats().evictions, 1);
}

#[test]
fn cache_without_lru_is_full_at_the_entry_limit() {
    let mut cache = JITCache::new(config(1, false));
    cache.put_at(QueryHash(1), query("a", 0), 0).unwrap();
    assert_eq!(cache.put_at(QueryHash(2), query("b", 0), 0), Err(CacheError::CacheFull));
}

#[test]
fn cache_invalidates_queries_on_changed_objects() {
    let mut cache = JITCache::new(config(10, true));
    cache.put_at(QueryHash(1), query("SeqScan users", 0), 0).unwrap();
    cache.put_at(QueryHash(2), query("SeqScan orders", 0), 0).unwrap();
    cache.invalidate_dependencies(&["users".to_string()]);
    assert!(cache.get_at(&QueryHash(1), 1).is_none());
    assert!(cache.get_at(&QueryHash(2), 1).is_some());
    let stats = cache.stats();
    assert_eq!(stats.evictions, 1);
    assert_eq!(stats.total_entries, 1);
}

#[test]
fn cache_top_performers_by_score() {
    let mut cache = JITCache::new(config(10, true));
    cache.put_at(QueryHash(1), query("a", 100), 0).unwrap();
    cache.put_at(QueryHash(2), query("b", 900), 0).unwrap();
    cache.put_at(QueryHash(3), query("c", 500), 0).unwrap();
    let top = cache.get_top_performers(2);
    assert_eq!(top, vec![(QueryHash(2), 2520), (QueryHash(3), 1800)]);
    assert_eq!(cache.get_top_performers(10).len(), 3);
}

#[test]
fn cache_clear_counts_evictions() {
    let mut cache = JITCache::new(config(10, true));
    cache.put_at(QueryHash(1), query("a", 0), 0).unwrap();
    cache.put_at(QueryHash(2), query("b", 0), 0).unwrap();
    cache.clear();
    let stats = cache.stats();
    assert_eq!(stats.evictions, 2);
    assert_eq!(stats.total_entries, 0);
    assert!(cache.get_at(&QueryHash(1), 0).is_none());
}

#[test]
fn cache_put_with_clock_then_get_with_clock() {
    let mut cache = JITCache::new(config(10, true));
    cache.put(QueryHash(7), query("p", 0)).unwrap();
    assert!(cache.get(&QueryHash(7)).is_some());
}
