//! The cache of compiled queries: entries kept in least-recently-used
//! order, evicted by age, by memory, by count, or when the objects their
//! plans read change.

use vstd::prelude::*;
use crate::ambient::clock_seconds;
use crate::jit::compiler::{CompiledQuery, QueryHash, same_query};
use crate::text::{contains_seq, text_contains};

verus! {

/// Cache operation errors.
#[derive(Debug, Clone, Copy, PartialEq, Eq, Structural)]
pub enum CacheError {
    CacheFull,
    EntryNotFound,
    InvalidEntry,
    MemoryLimitExceeded,
}

impl CacheError {
    /// A message for people.
    pub fn message(&self) -> (r: &'static str)
        ensures
            r@ == match self {
                CacheError::CacheFull => "Cache is full"@,
                CacheError::EntryNotFound => "Entry not found"@,
                CacheError::InvalidEntry => "Invalid cache entry"@,
                CacheError::MemoryLimitExceeded => "Memory limit exceeded"@,
            },
    {
        match self {
            CacheError::CacheFull => "Cache is full",
            CacheError::EntryNotFound => "Entry not found",
            CacheError::InvalidEntry => "Invalid cache entry",
            CacheError::MemoryLimitExceeded => "Memory limit exceeded",
        }
    }
}

/// Cache settings.  The performance threshold is a speed-up in thousandths.
#[derive(Debug, Clone, Copy, PartialEq, Eq, Structural)]
pub struct CacheConfig {
    pub max_entries: usize,
    pub max_memory_mb: usize,
    pub entry_ttl_seconds: u64,
    pub enable_lru: bool,
    pub enable_dependency_tracking: bool,
    pub performance_threshold: u64,
}

impl Default for CacheConfig {
    /// 1000 entries, 512 MB, one hour to live, LRU eviction, dependency
    /// tracking, and a 20% speed-up threshold.
    fn default() -> (r: Self)
        ensures
            r == (CacheConfig {
                max_entries: 1000,
                max_memory_mb: 512,
                entry_ttl_seconds: 3600,
                enable_lru: true,
                enable_dependency_tracking: true,
                performance_threshold: 1200,
            }),
    {
        CacheConfig {
            max_entries: 1000,
            max_memory_mb: 512,
            entry_ttl_seconds: 3600,
            enable_lru: true,
            enable_dependency_tracking: true,
            performance_threshold: 1200,
        }
    }
}


/// One cached compiled query.  The performance score is the expected
/// speed-up in thousandths.
#[derive(Debug)]
pub struct CacheEntry {
    pub query_hash: QueryHash,
    pub compiled_query: CompiledQuery,
    pub access_count: u64,
    pub last_accessed: u64,
    pub creation_time: u64,
    pub memory_size: usize,
    pub dependencies: Vec<QueryHash>,
    pub performance_score: u64,
}

/// Counters of the cache.  The hit rate is in thousandths; counters wrap
/// at `u64::MAX`.
#[derive(Debug, Clone, Copy, PartialEq, Eq, Structural)]
pub struct CacheStats {
    pub total_entries: usize,
    pub cache_hits: u64,
    pub cache_misses: u64,
    pub evictions: u64,
    pub memory_used_mb: usize,
    pub hit_rate: u64,
    pub average_entry_lifetime: u64,
}

/// What a cache holds: its entries in the order they are kept, the
/// least-recently-used order of their hashes (oldest first), its settings
/// and its counters.
#[verifier::ext_equal]
pub struct CacheView {
    pub entries: Seq<CacheEntry>,
    pub lru: Seq<QueryHash>,
    pub config: CacheConfig,
    pub stats: CacheStats,
}

/// Bytes in a mebibyte.
pub const MEBIBYTE: usize = 1048576;

/// The memory the entries are estimated to take, in bytes.
pub open spec fn memory_total(s: Seq<CacheEntry>) -> int
    decreases s.len(),
{
    if s.len() == 0 {
        0
    } else {
        memory_total(s.drop_last()) + s.last().memory_size
    }
}

/// Whether an entry has the hash.
pub open spec fn has_hash(s: Seq<CacheEntry>, h: QueryHash) -> bool {
    exists|i: int| 0 <= i < s.len() && #[trigger] s[i].query_hash == h
}

/// The place of the entry with the hash.
pub open spec fn hash_index(s: Seq<CacheEntry>, h: QueryHash) -> int {
    choose|i: int| 0 <= i < s.len() && #[trigger] s[i].query_hash == h
}

/// No two entries share a hash.
pub open spec fn unique_hashes(s: Seq<CacheEntry>) -> bool {
    forall|i: int, j: int| 0 <= i < j < s.len() ==> #[trigger] s[i].query_hash != #[trigger] s[j].query_hash
}

/// `i` is the first place of `h` in `s`.
pub open spec fn first_at(s: Seq<QueryHash>, h: QueryHash, i: int) -> bool {
    &&& 0 <= i < s.len()
    &&& s[i] == h
    &&& forall|j: int| 0 <= j < i ==> #[trigger] s[j] != h
}

/// `s` without the first occurrence of `h` (unchanged when there is none).
pub open spec fn drop_first_of(s: Seq<QueryHash>, h: QueryHash) -> Seq<QueryHash> {
    if s.contains(h) {
        s.remove(choose|i: int| first_at(s, h, i))
    } else {
        s
    }
}

/// `i` is the first of the entries with the lowest performance score.
pub open spec fn first_lowest(s: Seq<CacheEntry>, i: int) -> bool {
    &&& 0 <= i < s.len()
    &&& forall|j: int| 0 <= j < s.len() ==> s[i].performance_score <= #[trigger] s[j].performance_score
    &&& forall|j: int| 0 <= j < i ==> #[trigger] s[j].performance_score > s[i].performance_score
}

/// The hashes of `lru` that were not evicted, in order.
pub open spec fn keep_unevicted(lru: Seq<QueryHash>, evicted: Seq<QueryHash>) -> Seq<QueryHash>
    decreases lru.len(),
{
    if lru.len() == 0 {
        Seq::empty()
    } else if evicted.contains(lru.last()) {
        keep_unevicted(lru.drop_last(), evicted)
    } else {
        keep_unevicted(lru.drop_last(), evicted).push(lru.last())
    }
}

/// `x + n`, wrapping past `u64::MAX`.
pub open spec fn add_count(x: u64, n: int) -> u64 {
    vstd::wrapping::u64_specs::wrapping_add(x, n as u64)
}

/// The counters with the evictions raised by `n` and the memory figure
/// taken from `entries`.
pub open spec fn after_evicting(s: CacheStats, n: int) -> CacheStats {
    CacheStats {
        total_entries: s.total_entries,
        cache_hits: s.cache_hits,
        cache_misses: s.cache_misses,
        evictions: add_count(s.evictions, n),
        memory_used_mb: s.memory_used_mb,
        hit_rate: s.hit_rate,
        average_entry_lifetime: s.average_entry_lifetime,
    }
}

/// The counters with the memory figure of `entries`.
pub open spec fn with_memory(s: CacheStats, entries: Seq<CacheEntry>) -> CacheStats {
    CacheStats {
        total_entries: s.total_entries,
        cache_hits: s.cache_hits,
        cache_misses: s.cache_misses,
        evictions: s.evictions,
        memory_used_mb: (memory_total(entries) / MEBIBYTE as int) as usize,
        hit_rate: s.hit_rate,
        average_entry_lifetime: s.average_entry_lifetime,
    }
}


/// The entry was made more than `ttl` seconds before `now`.
pub open spec fn expired(e: CacheEntry, now: u64, ttl: u64) -> bool {
    now - e.creation_time > ttl
}

/// `a` is the entry `e` after a lookup at `now`: one more access, last
/// accessed at `now`, all else kept.
pub open spec fn touched(a: CacheEntry, e: CacheEntry, now: u64) -> bool {
    &&& a.query_hash == e.query_hash
    &&& a.compiled_query == e.compiled_query
    &&& a.access_count == add_count(e.access_count, 1)
    &&& a.last_accessed == now
    &&& a.creation_time == e.creation_time
    &&& a.memory_size == e.memory_size
    &&& a.dependencies == e.dependencies
    &&& a.performance_score == e.performance_score
}

/// `a` is the cache `b` after looking up `h` at `now`, which gave `r`:
/// a miss counts and changes nothing else; an entry past its time to live
/// is evicted and gives nothing; a live entry is touched, moves to the
/// newest end of the LRU order (when LRU is on), counts a hit and gives a
/// copy of its compiled query.
pub open spec fn lookup_done(b: CacheView, a: CacheView, h: QueryHash, now: u64, r: Option<CompiledQuery>) -> bool {
    &&& a.config == b.config
    &&& if !has_hash(b.entries, h) {
        &&& r is None
        &&& a.entries == b.entries
        &&& a.lru == b.lru
        &&& a.stats == (CacheStats { cache_misses: add_count(b.stats.cache_misses, 1), ..b.stats })
    } else {
        let i = hash_index(b.entries, h);
        let e = b.entries[i];
        if expired(e, now, b.config.entry_ttl_seconds) {
            &&& r is None
            &&& a.entries == b.entries.remove(i)
            &&& a.lru == drop_first_of(b.lru, h)
            &&& a.stats == with_memory(after_evicting(b.stats, 1), a.entries)
        } else {
            &&& r matches Some(q) && same_query(q, e.compiled_query)
            &&& a.entries.len() == b.entries.len()
            &&& forall|j: int| 0 <= j < b.entries.len() && j != i ==> #[trigger] a.entries[j] == b.entries[j]
            &&& touched(a.entries[i], e, now)
            &&& a.lru == if b.config.enable_lru {
                drop_first_of(b.lru, h).push(h)
            } else {
                b.lru
            }
            &&& a.stats == (CacheStats { cache_hits: add_count(b.stats.cache_hits, 1), ..b.stats })
        }
    }
}

/// Where eviction stands: the entries and order left, and the hashes
/// evicted so far.
#[verifier::ext_equal]
pub struct EvictState {
    pub entries: Seq<CacheEntry>,
    pub lru: Seq<QueryHash>,
    pub evicted: Seq<QueryHash>,
}

/// Evicts entries until `remaining` bytes are freed or none is left: by
/// LRU order (oldest first, skipping hashes with no entry, stopping when
/// the order runs out), or else the first entry of the lowest score.
pub open spec fn evict_run(
    entries: Seq<CacheEntry>,
    lru: Seq<QueryHash>,
    evicted: Seq<QueryHash>,
    remaining: int,
    by_lru: bool,
) -> EvictState
    decreases entries.len() + lru.len(),
{
    if remaining <= 0 || entries.len() == 0 || (by_lru && lru.len() == 0) {
        EvictState { entries, lru, evicted }
    } else if by_lru {
        let h = lru[0];
        let i = hash_index(entries, h);
        if has_hash(entries, h) && 0 <= i < entries.len() {
            evict_run(entries.remove(i), lru.drop_first(), evicted.push(h), remaining - entries[i].memory_size, by_lru)
        } else {
            evict_run(entries, lru.drop_first(), evicted, remaining, by_lru)
        }
    } else {
        let i = choose|i: int| first_lowest(entries, i);
        if first_lowest(entries, i) {
            evict_run(
                entries.remove(i),
                lru,
                evicted.push(entries[i].query_hash),
                remaining - entries[i].memory_size,
                by_lru,
            )
        } else {
            EvictState { entries, lru, evicted }
        }
    }
}

/// The byte length of the text in UTF-8.
pub open spec fn utf8_len(s: Seq<char>) -> int {
    vstd::utf8::encode_utf8(s).len() as int
}

/// The byte lengths of the texts, summed.
pub open spec fn text_lengths(v: Seq<String>) -> int
    decreases v.len(),
{
    if v.len() == 0 {
        0
    } else {
        text_lengths(v.drop_last()) + utf8_len(v.last()@)
    }
}

/// The estimated size of a cached compiled query: the size of the value
/// itself, its plan text and the text of its functions.
pub open spec fn entry_size(q: CompiledQuery) -> int {
    vstd::layout::size_of::<CompiledQuery>() + utf8_len(q.metadata.source_plan@) + text_lengths(q.module.functions@)
}

/// The expected speed-up of a compiled query, in thousandths:
/// `(1 + 2 × vectorisation efficiency) × 0.9`, rounded down.
pub open spec fn performance_score_of(q: CompiledQuery) -> u64 {
    ((1000 + 2 * q.performance.vectorization_efficiency) * 9 / 10) as u64
}

/// The memory limit of the settings, in bytes.
pub open spec fn memory_limit(c: CacheConfig) -> int {
    c.max_memory_mb * MEBIBYTE as int
}

/// The cache after making room for `size` more bytes: when the memory
/// would pass the limit, entries are evicted (see `evict_run`) until the
/// excess is freed, and the evicted hashes leave the LRU order.
pub open spec fn room_made(b: CacheView, size: int) -> CacheView {
    let over = memory_total(b.entries) + size - memory_limit(b.config);
    if over > 0 {
        let r = evict_run(b.entries, b.lru, Seq::empty(), over, b.config.enable_lru);
        CacheView {
            entries: r.entries,
            lru: keep_unevicted(r.lru, r.evicted),
            config: b.config,
            stats: after_evicting(b.stats, r.evicted.len() as int),
        }
    } else {
        b
    }
}

/// The cache after making a slot for one more entry: at the entry limit,
/// the oldest hash of the LRU order leaves it (with its entry, if any);
/// `None` when the order is empty (the cache is full).
pub open spec fn slot_made(b: CacheView) -> Option<CacheView> {
    if b.entries.len() >= b.config.max_entries {
        if b.lru.len() == 0 {
            None
        } else {
            let h = b.lru[0];
            Some(
                CacheView {
                    entries: if has_hash(b.entries, h) {
                        b.entries.remove(hash_index(b.entries, h))
                    } else {
                        b.entries
                    },
                    lru: b.lru.drop_first(),
                    config: b.config,
                    stats: after_evicting(b.stats, 1),
                },
            )
        }
    } else {
        Some(b)
    }
}

/// `e` is a new entry for `q` under `h`, made at `now`.
pub open spec fn fresh_entry(e: CacheEntry, h: QueryHash, q: CompiledQuery, now: u64) -> bool {
    &&& e.query_hash == h
    &&& e.compiled_query == q
    &&& e.access_count == 1
    &&& e.last_accessed == now
    &&& e.creation_time == now
    &&& e.memory_size == entry_size(q)
    &&& e.dependencies@.len() == 0
    &&& e.performance_score == performance_score_of(q)
}

/// `a` is `c` with a new entry for `q` under `h`: in the place of the
/// entry with that hash, or else at the end.
pub open spec fn placed(c: Seq<CacheEntry>, a: Seq<CacheEntry>, h: QueryHash, q: CompiledQuery, now: u64) -> bool {
    if has_hash(c, h) {
        let i = hash_index(c, h);
        &&& a.len() == c.len()
        &&& forall|j: int| 0 <= j < c.len() && j != i ==> #[trigger] a[j] == c[j]
        &&& fresh_entry(a[i], h, q, now)
    } else {
        &&& a.len() == c.len() + 1
        &&& forall|j: int| 0 <= j < c.len() ==> #[trigger] a[j] == c[j]
        &&& fresh_entry(a[c.len() as int], h, q, now)
    }
}

/// `a` is the cache `b` after storing `q` under `h` at `now`, with result
/// `r`: room is made for its size, then a slot; a full cache refuses it
/// (keeping what making room did); else the entry is placed, its hash
/// joins the newest end of the LRU order (when LRU is on), and the memory
/// and entry counters are taken anew.
pub open spec fn store_done(
    b: CacheView,
    a: CacheView,
    h: QueryHash,
    q: CompiledQuery,
    now: u64,
    r: Result<(), CacheError>,
) -> bool {
    let m = room_made(b, entry_size(q));
    match slot_made(m) {
        None => r == Err::<(), CacheError>(CacheError::CacheFull) && a == m,
        Some(c) => {
            &&& r is Ok
            &&& a.config == c.config
            &&& placed(c.entries, a.entries, h, q, now)
            &&& a.lru == if c.config.enable_lru {
                c.lru.push(h)
            } else {
                c.lru
            }
            &&& a.stats == (CacheStats { total_entries: a.entries.len() as usize, ..with_memory(c.stats, a.entries) })
        },
    }
}

/// The plan of the query mentions one of the objects.
pub open spec fn references(q: CompiledQuery, objects: Seq<String>) -> bool {
    exists|k: int| 0 <= k < objects.len() && contains_seq(q.metadata.source_plan@, #[trigger] objects[k]@)
}

/// The entries whose plans mention none of the objects, in order.
pub open spec fn kept_entries(s: Seq<CacheEntry>, objects: Seq<String>) -> Seq<CacheEntry>
    decreases s.len(),
{
    if s.len() == 0 {
        Seq::empty()
    } else if references(s.last().compiled_query, objects) {
        kept_entries(s.drop_last(), objects)
    } else {
        kept_entries(s.drop_last(), objects).push(s.last())
    }
}

/// The hashes of the entries whose plans mention one of the objects, in
/// order.
pub open spec fn dropped_hashes(s: Seq<CacheEntry>, objects: Seq<String>) -> Seq<QueryHash>
    decreases s.len(),
{
    if s.len() == 0 {
        Seq::empty()
    } else if references(s.last().compiled_query, objects) {
        dropped_hashes(s.drop_last(), objects).push(s.last().query_hash)
    } else {
        dropped_hashes(s.drop_last(), objects)
    }
}

/// The order without the first occurrence of each hash, taken in turn.
pub open spec fn drop_each(lru: Seq<QueryHash>, hs: Seq<QueryHash>) -> Seq<QueryHash>
    decreases hs.len(),
{
    if hs.len() == 0 {
        lru
    } else {
        drop_first_of(drop_each(lru, hs.drop_last()), hs.last())
    }
}

/// Each entry's hash with its performance score.
pub open spec fn score_pairs(s: Seq<CacheEntry>) -> Seq<(QueryHash, u64)> {
    s.map_values(|e: CacheEntry| (e.query_hash, e.performance_score))
}

/// Inserts a pair after every pair of no lower score.
pub open spec fn insert_by_score(s: Seq<(QueryHash, u64)>, x: (QueryHash, u64)) -> Seq<(QueryHash, u64)>
    decreases s.len(),
{
    if s.len() == 0 {
        seq![x]
    } else if s.last().1 < x.1 {
        insert_by_score(s.drop_last(), x).push(s.last())
    } else {
        s.push(x)
    }
}

/// The pairs from the highest score down, equal scores keeping their
/// order (a stable sort).
pub open spec fn sort_by_score(s: Seq<(QueryHash, u64)>) -> Seq<(QueryHash, u64)>
    decreases s.len(),
{
    if s.len() == 0 {
        Seq::empty()
    } else {
        insert_by_score(sort_by_score(s.drop_last()), s.last())
    }
}

proof fn lemma_insert_by_score_at(s: Seq<(QueryHash, u64)>, x: (QueryHash, u64), j: int)
    requires
        0 <= j <= s.len(),
        forall|k: int| j <= k < s.len() ==> #[trigger] s[k].1 < x.1,
        j == 0 || s[j - 1].1 >= x.1,
    ensures
        insert_by_score(s, x) == s.insert(j, x),
    decreases s.len(),
{
    if j == s.len() {
        if s.len() == 0 {
            assert(s.insert(j, x) =~= seq![x]);
        } else {
            assert(s.insert(j, x) =~= s.push(x));
        }
    } else {
        assert(s[s.len() - 1].1 < x.1);
        lemma_insert_by_score_at(s.drop_last(), x, j);
        assert(s.drop_last().insert(j, x).push(s.last()) =~= s.insert(j, x));
    }
}

proof fn lemma_sort_by_score_len(s: Seq<(QueryHash, u64)>)
    ensures
        sort_by_score(s).len() == s.len(),
    decreases s.len(),
{
    if s.len() > 0 {
        lemma_sort_by_score_len(s.drop_last());
        lemma_insert_by_score_len(sort_by_score(s.drop_last()), s.last());
    }
}

proof fn lemma_insert_by_score_len(s: Seq<(QueryHash, u64)>, x: (QueryHash, u64))
    ensures
        insert_by_score(s, x).len() == s.len() + 1,
    decreases s.len(),
{
    if s.len() > 0 {
        lemma_insert_by_score_len(s.drop_last(), x);
    }
}

proof fn lemma_unique_remove(s: Seq<CacheEntry>, i: int)
    requires
        unique_hashes(s),
        0 <= i < s.len(),
    ensures
        unique_hashes(s.remove(i)),
{
    let t = s.remove(i);
    assert forall|a: int, b: int| 0 <= a < b < t.len() implies #[trigger] t[a].query_hash != #[trigger] t[b].query_hash by {
        let a0 = if a < i { a } else { a + 1 };
        let b0 = if b < i { b } else { b + 1 };
        assert(t[a] == s[a0] && t[b] == s[b0]);
        assert(s[a0].query_hash != s[b0].query_hash);
    }
}

proof fn lemma_unique_update(s: Seq<CacheEntry>, i: int, e: CacheEntry)
    requires
        unique_hashes(s),
        0 <= i < s.len(),
        e.query_hash == s[i].query_hash,
    ensures
        unique_hashes(s.update(i, e)),
{
    let t = s.update(i, e);
    assert forall|a: int, b: int| 0 <= a < b < t.len() implies #[trigger] t[a].query_hash != #[trigger] t[b].query_hash by {
        assert(t[a].query_hash == s[a].query_hash && t[b].query_hash == s[b].query_hash);
    }
}

proof fn lemma_memory_update(s: Seq<CacheEntry>, i: int, e: CacheEntry)
    requires
        0 <= i < s.len(),
    ensures
        memory_total(s.update(i, e)) == memory_total(s) - s[i].memory_size + e.memory_size,
{
    lemma_memory_remove(s, i);
    lemma_memory_insert(s.remove(i), i, e);
    assert(s.remove(i).insert(i, e) =~= s.update(i, e));
}

proof fn lemma_first_at_unique(s: Seq<QueryHash>, h: QueryHash, i: int, k: int)
    requires
        first_at(s, h, i),
        first_at(s, h, k),
    ensures
        i == k,
{
    if i < k {
        assert(s[i] != h);
    } else if k < i {
        assert(s[k] != h);
    }
}

proof fn lemma_drop_first_of(s: Seq<QueryHash>, h: QueryHash, i: int)
    requires
        first_at(s, h, i),
    ensures
        drop_first_of(s, h) == s.remove(i),
{
    assert(s.contains(h)) by {
        assert(s[i] == h);
    }
    let k = choose|k: int| first_at(s, h, k);
    lemma_first_at_unique(s, h, i, k);
}

proof fn lemma_hash_index(s: Seq<CacheEntry>, h: QueryHash, i: int)
    requires
        unique_hashes(s),
        0 <= i < s.len(),
        s[i].query_hash == h,
    ensures
        has_hash(s, h),
        hash_index(s, h) == i,
{
    assert(has_hash(s, h));
    let k = hash_index(s, h);
    if k < i {
        assert(s[k].query_hash != s[i].query_hash);
    } else if i < k {
        assert(s[i].query_hash != s[k].query_hash);
    }
}

proof fn lemma_first_lowest_unique(s: Seq<CacheEntry>, i: int, k: int)
    requires
        first_lowest(s, i),
        first_lowest(s, k),
    ensures
        i == k,
{
    if i < k {
        assert(s[i].performance_score > s[k].performance_score);
        assert(s[k].performance_score <= s[i].performance_score);
    } else if k < i {
        assert(s[k].performance_score > s[i].performance_score);
        assert(s[i].performance_score <= s[k].performance_score);
    }
}

proof fn lemma_memory_remove(s: Seq<CacheEntry>, i: int)
    requires
        0 <= i < s.len(),
    ensures
        memory_total(s.remove(i)) == memory_total(s) - s[i].memory_size,
    decreases s.len(),
{
    if i == s.len() - 1 {
        assert(s.remove(i) =~= s.drop_last());
    } else {
        lemma_memory_remove(s.drop_last(), i);
        assert(s.remove(i).drop_last() =~= s.drop_last().remove(i));
        assert(s.remove(i).last() == s.last());
    }
}

proof fn lemma_memory_insert(s: Seq<CacheEntry>, i: int, e: CacheEntry)
    requires
        0 <= i <= s.len(),
    ensures
        memory_total(s.insert(i, e)) == memory_total(s) + e.memory_size,
    decreases s.len(),
{
    if i == s.len() {
        assert(s.insert(i, e).drop_last() =~= s);
    } else {
        lemma_memory_insert(s.drop_last(), i, e);
        assert(s.insert(i, e).drop_last() =~= s.drop_last().insert(i, e));
        assert(s.insert(i, e).last() == s.last());
    }
}

proof fn lemma_memory_nonneg(s: Seq<CacheEntry>)
    ensures
        memory_total(s) >= 0,
    decreases s.len(),
{
    if s.len() > 0 {
        lemma_memory_nonneg(s.drop_last());
    }
}

proof fn lemma_memory_prefix(s: Seq<CacheEntry>, k: int)
    requires
        0 <= k <= s.len(),
    ensures
        memory_total(s.take(k)) <= memory_total(s),
    decreases s.len(),
{
    if k < s.len() {
        lemma_memory_prefix(s.drop_last(), k);
        assert(s.drop_last().take(k) =~= s.take(k));
    } else {
        assert(s.take(k) =~= s);
    }
    lemma_memory_nonneg(s);
}

/// The estimated memory of the entries, in bytes.
fn memory_usage(entries: &Vec<CacheEntry>) -> (r: usize)
    requires
        memory_total(entries@) <= usize::MAX,
    ensures
        r == memory_total(entries@),
{
    let mut total: usize = 0;
    let mut i: usize = 0;
    while i < entries.len()
        invariant
            i <= entries@.len(),
            memory_total(entries@) <= usize::MAX,
            total == memory_total(entries@.take(i as int)),
        decreases entries.len() - i,
    {
        assert(entries@.take(i as int + 1).drop_last() =~= entries@.take(i as int));
        proof {
            lemma_memory_prefix(entries@, i as int + 1);
        }
        total = total + entries[i].memory_size;
        i = i + 1;
    }
    assert(entries@.take(i as int) =~= entries@);
    total
}

/// The place of the entry with the hash, if any.
fn position_of_hash(entries: &Vec<CacheEntry>, h: QueryHash) -> (r: Option<usize>)
    requires
        unique_hashes(entries@),
    ensures
        r is None <==> !has_hash(entries@, h),
        r matches Some(i) ==> i < entries@.len() && entries@[i as int].query_hash == h && hash_index(entries@, h)
            == i,
{
    let mut i: usize = 0;
    while i < entries.len()
        invariant
            i <= entries@.len(),
            unique_hashes(entries@),
            forall|j: int| 0 <= j < i ==> #[trigger] entries@[j].query_hash != h,
        decreases entries.len() - i,
    {
        if entries[i].query_hash == h {
            proof {
                lemma_hash_index(entries@, h, i as int);
            }
            return Some(i);
        }
        i = i + 1;
    }
    None
}

/// The first place of the hash in the order, if any.
fn first_position(order: &Vec<QueryHash>, h: QueryHash) -> (r: Option<usize>)
    ensures
        r is None <==> !order@.contains(h),
        r matches Some(i) ==> first_at(order@, h, i as int),
{
    let mut i: usize = 0;
    while i < order.len()
        invariant
            i <= order@.len(),
            forall|j: int| 0 <= j < i ==> #[trigger] order@[j] != h,
        decreases order.len() - i,
    {
        if order[i] == h {
            return Some(i);
        }
        i = i + 1;
    }
    None
}

/// Removes the first occurrence of the hash from the order.
fn drop_from_order(order: &mut Vec<QueryHash>, h: QueryHash)
    ensures
        final(order)@ == drop_first_of(old(order)@, h),
{
    match first_position(order, h) {
        Some(i) => {
            proof {
                lemma_drop_first_of(order@, h, i as int);
            }
            order.remove(i);
        },
        None => {},
    }
}

/// The first place of the lowest performance score.
fn lowest_position(entries: &Vec<CacheEntry>) -> (r: usize)
    requires
        entries@.len() > 0,
    ensures
        first_lowest(entries@, r as int),
{
    let mut best: usize = 0;
    let mut i: usize = 1;
    while i < entries.len()
        invariant
            0 <= best < i <= entries@.len(),
            forall|j: int| 0 <= j < i ==> entries@[best as int].performance_score <= #[trigger] entries@[j].performance_score,
            forall|j: int| 0 <= j < best ==> #[trigger] entries@[j].performance_score > entries@[best as int].performance_score,
        decreases entries.len() - i,
    {
        if entries[i].performance_score < entries[best].performance_score {
            best = i;
        }
        i = i + 1;
    }
    best
}

/// Whether the hash is in the list.
fn hash_listed(v: &Vec<QueryHash>, h: QueryHash) -> (r: bool)
    ensures
        r == v@.contains(h),
{
    let mut i: usize = 0;
    while i < v.len()
        invariant
            i <= v@.len(),
            forall|j: int| 0 <= j < i ==> #[trigger] v@[j] != h,
        decreases v.len() - i,
    {
        if v[i] == h {
            return true;
        }
        i = i + 1;
    }
    false
}

/// The hashes of the order not in `evicted`, in order.
fn unevicted(order: &Vec<QueryHash>, evicted: &Vec<QueryHash>) -> (r: Vec<QueryHash>)
    ensures
        r@ == keep_unevicted(order@, evicted@),
{
    let mut out: Vec<QueryHash> = Vec::new();
    let mut i: usize = 0;
    while i < order.len()
        invariant
            i <= order@.len(),
            out@ == keep_unevicted(order@.take(i as int), evicted@),
        decreases order.len() - i,
    {
        assert(order@.take(i as int + 1).drop_last() =~= order@.take(i as int));
        let h = order[i];
        if !hash_listed(evicted, h) {
            out.push(h);
        }
        i = i + 1;
    }
    assert(order@.take(i as int) =~= order@);
    out
}

proof fn lemma_text_lengths_prefix(v: Seq<String>, k: int)
    requires
        0 <= k <= v.len(),
    ensures
        0 <= text_lengths(v.take(k)) <= text_lengths(v),
    decreases v.len(),
{
    if k < v.len() {
        lemma_text_lengths_prefix(v.drop_last(), k);
        assert(v.drop_last().take(k) =~= v.take(k));
    } else {
        assert(v.take(k) =~= v);
        if v.len() > 0 {
            lemma_text_lengths_prefix(v.drop_last(), k - 1);
            assert(v.drop_last().take(k - 1) =~= v.drop_last());
        }
    }
}

/// The estimated size of a cached compiled query (see `entry_size`).
fn entry_size_of(q: &CompiledQuery) -> (r: usize)
    requires
        entry_size(*q) <= usize::MAX,
    ensures
        r == entry_size(*q),
{
    proof {
        lemma_text_lengths_prefix(q.module.functions@, 0);
    }
    let base = std::mem::size_of::<CompiledQuery>() + q.metadata.source_plan.as_str().len();
    let mut total: usize = base;
    let mut i: usize = 0;
    while i < q.module.functions.len()
        invariant
            i <= q.module.functions@.len(),
            entry_size(*q) <= usize::MAX,
            base == vstd::layout::size_of::<CompiledQuery>() + utf8_len(q.metadata.source_plan@),
            total == base + text_lengths(q.module.functions@.take(i as int)),
        decreases q.module.functions.len() - i,
    {
        assert(q.module.functions@.take(i as int + 1).drop_last() =~= q.module.functions@.take(i as int));
        proof {
            lemma_text_lengths_prefix(q.module.functions@, i as int + 1);
        }
        total = total + q.module.functions[i].as_str().len();
        i = i + 1;
    }
    assert(q.module.functions@.take(i as int) =~= q.module.functions@);
    total
}

proof fn lemma_unique_push(s: Seq<CacheEntry>, e: CacheEntry)
    requires
        unique_hashes(s),
        !has_hash(s, e.query_hash),
    ensures
        unique_hashes(s.push(e)),
{
    let t = s.push(e);
    assert forall|a: int, b: int| 0 <= a < b < t.len() implies #[trigger] t[a].query_hash != #[trigger] t[b].query_hash by {
        if b == s.len() {
            assert(t[a] == s[a]);
        } else {
            assert(t[a] == s[a] && t[b] == s[b]);
        }
    }
}

/// Whether the plan of the query mentions one of the objects.
fn query_references_objects(q: &CompiledQuery, objects: &[String]) -> (r: bool)
    ensures
        r == references(*q, objects@),
{
    let mut k: usize = 0;
    while k < objects.len()
        invariant
            k <= objects@.len(),
            forall|j: int| 0 <= j < k ==> !contains_seq(q.metadata.source_plan@, #[trigger] objects@[j]@),
        decreases objects.len() - k,
    {
        if text_contains(q.metadata.source_plan.as_str(), objects[k].as_str()) {
            return true;
        }
        k = k + 1;
    }
    false
}

/// A compiled-query cache with least-recently-used eviction.
pub struct JITCache {
    entries: Vec<CacheEntry>,
    lru_order: Vec<QueryHash>,
    config: CacheConfig,
    stats: CacheStats,
}

impl View for JITCache {
    type V = CacheView;

    closed spec fn view(&self) -> CacheView {
        CacheView { entries: self.entries@, lru: self.lru_order@, config: self.config, stats: self.stats }
    }
}

impl JITCache {
    /// Entry hashes are unique and the estimated memory fits in a `usize`.
    pub open spec fn wf(&self) -> bool {
        &&& unique_hashes(self@.entries)
        &&& memory_total(self@.entries) <= usize::MAX
    }

    /// An empty cache with the settings.
    pub fn new(config: CacheConfig) -> (r: Self)
        ensures
            r.wf(),
            r@.entries.len() == 0,
            r@.lru.len() == 0,
            r@.config == config,
            r@.stats == (CacheStats {
                total_entries: 0,
                cache_hits: 0,
                cache_misses: 0,
                evictions: 0,
                memory_used_mb: 0,
                hit_rate: 0,
                average_entry_lifetime: 0,
            }),
    {
        JITCache {
            entries: Vec::new(),
            lru_order: Vec::new(),
            config,
            stats: CacheStats {
                total_entries: 0,
                cache_hits: 0,
                cache_misses: 0,
                evictions: 0,
                memory_used_mb: 0,
                hit_rate: 0,
                average_entry_lifetime: 0,
            },
        }
    }

    /// The counters, with the hit rate (in thousandths, rounded down) taken
    /// from hits and misses; 0 before any lookup.
    pub fn stats(&self) -> (r: CacheStats)
        ensures
            r == (CacheStats {
                hit_rate: if self@.stats.cache_hits + self@.stats.cache_misses > 0 {
                    (self@.stats.cache_hits * 1000 / (self@.stats.cache_hits + self@.stats.cache_misses)) as u64
                } else {
                    0
                },
                ..self@.stats
            }),
    {
        let mut s = self.stats;
        let hits = s.cache_hits as u128;
        let lookups = hits + s.cache_misses as u128;
        s.hit_rate = if lookups > 0 {
            assert((hits * 1000) as int / lookups as int <= 1000) by (nonlinear_arith)
                requires
                    hits <= lookups,
                    lookups > 0,
            ;
            (hits * 1000 / lookups) as u64
        } else {
            0
        };
        s
    }

    /// Looks up `query_hash` at time `now` (seconds since the Unix epoch);
    /// see `lookup_done`.
    pub fn get_at(&mut self, query_hash: &QueryHash, now: u64) -> (r: Option<CompiledQuery>)
        requires
            old(self).wf(),
        ensures
            final(self).wf(),
            lookup_done(old(self)@, final(self)@, *query_hash, now, r),
    {
        let h = *query_hash;
        match position_of_hash(&self.entries, h) {
            None => {
                self.stats.cache_misses = self.stats.cache_misses.wrapping_add(1);
                None
            },
            Some(i) => {
                let created = self.entries[i].creation_time;
                if now > created && now - created > self.config.entry_ttl_seconds {
                    proof {
                        lemma_memory_remove(self.entries@, i as int);
                        lemma_memory_nonneg(self.entries@.remove(i as int));
                        lemma_unique_remove(self.entries@, i as int);
                    }
                    self.entries.remove(i);
                    drop_from_order(&mut self.lru_order, h);
                    self.stats.evictions = self.stats.evictions.wrapping_add(1);
                    self.stats.memory_used_mb = memory_usage(&self.entries) / MEBIBYTE;
                    None
                } else {
                    let ghost before = self.entries@;
                    let mut e = self.entries.remove(i);
                    e.access_count = e.access_count.wrapping_add(1);
                    e.last_accessed = now;
                    let q = e.compiled_query.duplicate();
                    self.entries.insert(i, e);
                    proof {
                        assert(self.entries@ =~= before.update(i as int, e));
                        lemma_unique_update(before, i as int, e);
                        lemma_memory_update(before, i as int, e);
                    }
                    if self.config.enable_lru {
                        drop_from_order(&mut self.lru_order, h);
                        self.lru_order.push(h);
                    }
                    self.stats.cache_hits = self.stats.cache_hits.wrapping_add(1);
                    Some(q)
                }
            },
        }
    }

    /// Looks up `query_hash` at the time the system clock gives (a clock
    /// before the Unix epoch reads as 0); see `lookup_done`.
    pub fn get(&mut self, query_hash: &QueryHash) -> (r: Option<CompiledQuery>)
        requires
            old(self).wf(),
        ensures
            final(self).wf(),
            exists|now: u64| lookup_done(old(self)@, final(self)@, *query_hash, now, r),
    {
        let now: u64 = match clock_seconds() {
            Some(t) => if t < 0 {
                0
            } else {
                t as u64
            },
            None => 0,
        };
        self.get_at(query_hash, now)
    }

    /// Evicts entries until `to_free` bytes are freed (see `evict_run`),
    /// drops the evicted hashes from the LRU order and counts them.
    fn evict_entries(&mut self, to_free: usize)
        requires
            old(self).wf(),
        ensures
            final(self).wf(),
            ({
                let r = evict_run(old(self)@.entries, old(self)@.lru, Seq::empty(), to_free as int, old(self)@.config.enable_lru);
                &&& final(self)@.entries == r.entries
                &&& final(self)@.lru == keep_unevicted(r.lru, r.evicted)
                &&& final(self)@.config == old(self)@.config
                &&& final(self)@.stats == after_evicting(old(self)@.stats, r.evicted.len() as int)
            }),
            memory_total(final(self)@.entries) <= memory_total(old(self)@.entries),
    {
        let ghost goal = evict_run(self.entries@, self.lru_order@, Seq::empty(), to_free as int, self.config.enable_lru);
        let ghost total0 = memory_total(self.entries@);
        let mut freed: usize = 0;
        let mut evicted: Vec<QueryHash> = Vec::new();
        assert(evicted@ =~= Seq::<QueryHash>::empty());
        while freed < to_free && self.entries.len() > 0 && (!self.config.enable_lru || self.lru_order.len() > 0)
            invariant
                unique_hashes(self.entries@),
                memory_total(self.entries@) + freed == total0,
                total0 <= usize::MAX,
                evict_run(self.entries@, self.lru_order@, evicted@, to_free - freed, self.config.enable_lru) == goal,
                self.config == old(self).config,
                self.stats == old(self).stats,
            decreases self.entries@.len() + self.lru_order@.len(),
        {
            proof {
                lemma_memory_nonneg(self.entries@);
            }
            if self.config.enable_lru {
                let ghost lru0 = self.lru_order@;
                let h = self.lru_order.remove(0);
                assert(self.lru_order@ =~= lru0.drop_first());
                match position_of_hash(&self.entries, h) {
                    Some(i) => {
                        proof {
                            lemma_memory_remove(self.entries@, i as int);
                            lemma_memory_nonneg(self.entries@.remove(i as int));
                            lemma_unique_remove(self.entries@, i as int);
                        }
                        let e = self.entries.remove(i);
                        freed = freed + e.memory_size;
                        evicted.push(h);
                    },
                    None => {},
                }
            } else {
                let i = lowest_position(&self.entries);
                proof {
                    let k = choose|k: int| first_lowest(self.entries@, k);
                    lemma_first_lowest_unique(self.entries@, i as int, k);
                    lemma_memory_remove(self.entries@, i as int);
                    lemma_memory_nonneg(self.entries@.remove(i as int));
                    lemma_unique_remove(self.entries@, i as int);
                }
                let e = self.entries.remove(i);
                freed = freed + e.memory_size;
                evicted.push(e.query_hash);
            }
        }
        proof {
            lemma_memory_nonneg(self.entries@);
        }
        self.lru_order = unevicted(&self.lru_order, &evicted);
        self.stats.evictions = self.stats.evictions.wrapping_add(evicted.len() as u64);
    }

    /// Evicts the oldest hash of the LRU order and its entry, if any;
    /// `CacheFull` when the order is empty.
    fn evict_lru_entry(&mut self) -> (r: Result<(), CacheError>)
        requires
            old(self).wf(),
        ensures
            final(self).wf(),
            match slot_made(CacheView { entries: old(self)@.entries, lru: old(self)@.lru, config: CacheConfig { max_entries: 0, ..old(self)@.config }, stats: old(self)@.stats }) {
                None => r == Err::<(), CacheError>(CacheError::CacheFull) && final(self)@ == old(self)@,
                Some(c) => r is Ok && final(self)@.entries == c.entries && final(self)@.lru == c.lru
                    && final(self)@.stats == c.stats && final(self)@.config == old(self)@.config,
            },
            memory_total(final(self)@.entries) <= memory_total(old(self)@.entries),
    {
        if self.lru_order.len() == 0 {
            return Err(CacheError::CacheFull);
        }
        let ghost lru0 = self.lru_order@;
        let h = self.lru_order.remove(0);
        assert(self.lru_order@ =~= lru0.drop_first());
        match position_of_hash(&self.entries, h) {
            Some(i) => {
                proof {
                    lemma_memory_remove(self.entries@, i as int);
                    lemma_unique_remove(self.entries@, i as int);
                }
                self.entries.remove(i);
            },
            None => {},
        }
        self.stats.evictions = self.stats.evictions.wrapping_add(1);
        Ok(())
    }

    /// Stores `compiled_query` under `query_hash` at time `now` (seconds
    /// since the Unix epoch); see `store_done`.
    pub fn put_at(&mut self, query_hash: QueryHash, compiled_query: CompiledQuery, now: u64) -> (r: Result<(), CacheError>)
        requires
            old(self).wf(),
            memory_total(old(self)@.entries) + entry_size(compiled_query) <= usize::MAX,
        ensures
            final(self).wf(),
            store_done(old(self)@, final(self)@, query_hash, compiled_query, now, r),
    {
        proof {
            lemma_memory_nonneg(self.entries@);
        }
        let size = entry_size_of(&compiled_query);
        let current = memory_usage(&self.entries);
        let new_memory = current + size;
        let limit = self.config.max_memory_mb as u128 * 1048576;
        if new_memory as u128 > limit {
            self.evict_entries(new_memory - limit as usize);
        }
        let ghost m = self@;
        assert(m == room_made(old(self)@, entry_size(compiled_query)));
        if self.entries.len() >= self.config.max_entries {
            match self.evict_lru_entry() {
                Ok(()) => {},
                Err(e) => {
                    return Err(e);
                },
            }
        }
        let ghost c = self@;
        assert(slot_made(m) == Some(c));
        let score = ((1000 + 2 * compiled_query.performance.vectorization_efficiency as u64) * 9 / 10) as u64;
        let entry = CacheEntry {
            query_hash,
            compiled_query,
            access_count: 1,
            last_accessed: now,
            creation_time: now,
            memory_size: size,
            dependencies: Vec::new(),
            performance_score: score,
        };
        proof {
            lemma_memory_nonneg(self.entries@);
        }
        match position_of_hash(&self.entries, query_hash) {
            Some(i) => {
                proof {
                    lemma_unique_update(self.entries@, i as int, entry);
                    lemma_memory_update(self.entries@, i as int, entry);
                }
                self.entries.set(i, entry);
            },
            None => {
                proof {
                    lemma_unique_push(self.entries@, entry);
                    lemma_memory_insert(self.entries@, self.entries@.len() as int, entry);
                    assert(self.entries@.insert(self.entries@.len() as int, entry) =~= self.entries@.push(entry));
                }
                self.entries.push(entry);
            },
        }
        if self.config.enable_lru {
            self.lru_order.push(query_hash);
        }
        self.stats.memory_used_mb = memory_usage(&self.entries) / MEBIBYTE;
        self.stats.total_entries = self.entries.len();
        Ok(())
    }

    /// Stores `compiled_query` under `query_hash` at the time the system
    /// clock gives (a clock before the Unix epoch reads as 0); see
    /// `store_done`.
    pub fn put(&mut self, query_hash: QueryHash, compiled_query: CompiledQuery) -> (r: Result<(), CacheError>)
        requires
            old(self).wf(),
            memory_total(old(self)@.entries) + entry_size(compiled_query) <= usize::MAX,
        ensures
            final(self).wf(),
            exists|now: u64| store_done(old(self)@, final(self)@, query_hash, compiled_query, now, r),
    {
        let now: u64 = match clock_seconds() {
            Some(t) => if t < 0 {
                0
            } else {
                t as u64
            },
            None => 0,
        };
        self.put_at(query_hash, compiled_query, now)
    }

    /// Drops every entry whose plan mentions one of the changed objects,
    /// with the first occurrence of its hash in the LRU order, counting
    /// each as evicted; the memory and entry counters are taken anew.
    pub fn invalidate_dependencies(&mut self, changed_objects: &[String])
        requires
            old(self).wf(),
        ensures
            final(self).wf(),
            final(self)@.entries == kept_entries(old(self)@.entries, changed_objects@),
            final(self)@.lru == drop_each(old(self)@.lru, dropped_hashes(old(self)@.entries, changed_objects@)),
            final(self)@.config == old(self)@.config,
            final(self)@.stats == (CacheStats {
                evictions: add_count(
                    old(self)@.stats.evictions,
                    dropped_hashes(old(self)@.entries, changed_objects@).len() as int,
                ),
                total_entries: final(self)@.entries.len() as usize,
                memory_used_mb: (memory_total(final(self)@.entries) / MEBIBYTE as int) as usize,
                ..old(self)@.stats
            }),
    {
        let ghost orig = self.entries@;
        let ghost objs = changed_objects@;
        let ghost mut consumed: int = 0;
        let mut invalidated: Vec<QueryHash> = Vec::new();
        let mut i: usize = 0;
        assert(orig.take(0) =~= Seq::<CacheEntry>::empty());
        assert(self.entries@ =~= kept_entries(orig.take(0), objs) + orig.skip(0));
        while i < self.entries.len()
            invariant
                0 <= consumed <= orig.len(),
                objs == changed_objects@,
                self.entries@ == kept_entries(orig.take(consumed), objs) + orig.skip(consumed),
                i == kept_entries(orig.take(consumed), objs).len(),
                invalidated@ == dropped_hashes(orig.take(consumed), objs),
                unique_hashes(self.entries@),
                memory_total(self.entries@) <= memory_total(orig),
                memory_total(orig) <= usize::MAX,
                self.lru_order == old(self).lru_order,
                self.config == old(self).config,
                self.stats == old(self).stats,
            decreases self.entries.len() - i,
        {
            let ghost kept = kept_entries(orig.take(consumed), objs);
            assert(orig.take(consumed + 1).drop_last() =~= orig.take(consumed));
            assert(self.entries@[i as int] == orig[consumed]);
            if query_references_objects(&self.entries[i].compiled_query, changed_objects) {
                let h = self.entries[i].query_hash;
                proof {
                    lemma_memory_remove(self.entries@, i as int);
                    lemma_unique_remove(self.entries@, i as int);
                    assert((kept + orig.skip(consumed)).remove(i as int) =~= kept + orig.skip(consumed + 1));
                }
                self.entries.remove(i);
                invalidated.push(h);
            } else {
                assert(kept.push(orig[consumed]) + orig.skip(consumed + 1) =~= kept + orig.skip(consumed));
                i = i + 1;
            }
            proof {
                consumed = consumed + 1;
            }
        }
        assert(orig.take(consumed).len() == consumed);
        assert(consumed == orig.len()) by {
            if consumed < orig.len() {
                assert((kept_entries(orig.take(consumed), objs) + orig.skip(consumed)).len() > i);
            }
        }
        assert(orig.take(consumed) =~= orig);
        assert(self.entries@ =~= kept_entries(orig, objs));
        assert(invalidated@ =~= dropped_hashes(orig, objs));
        let ghost lru0 = self.lru_order@;
        let mut k: usize = 0;
        while k < invalidated.len()
            invariant
                k <= invalidated@.len(),
                self.lru_order@ == drop_each(lru0, invalidated@.take(k as int)),
                self.entries@ == kept_entries(orig, objs),
                invalidated@ == dropped_hashes(orig, objs),
                unique_hashes(self.entries@),
                memory_total(self.entries@) <= usize::MAX,
                self.config == old(self).config,
                self.stats == old(self).stats,
            decreases invalidated.len() - k,
        {
            assert(invalidated@.take(k as int + 1).drop_last() =~= invalidated@.take(k as int));
            drop_from_order(&mut self.lru_order, invalidated[k]);
            k = k + 1;
        }
        assert(invalidated@.take(k as int) =~= invalidated@);
        self.stats.evictions = self.stats.evictions.wrapping_add(invalidated.len() as u64);
        self.stats.memory_used_mb = memory_usage(&self.entries) / MEBIBYTE;
        self.stats.total_entries = self.entries.len();
    }

    /// Each entry's hash and score, from the highest score down (equal
    /// scores in entry order), at most `limit` of them.
    pub fn get_top_performers(&self, limit: usize) -> (r: Vec<(QueryHash, u64)>)
        ensures
            r@ == if limit < self@.entries.len() {
                sort_by_score(score_pairs(self@.entries)).take(limit as int)
            } else {
                sort_by_score(score_pairs(self@.entries))
            },
    {
        let ghost pairs = score_pairs(self.entries@);
        let mut out: Vec<(QueryHash, u64)> = Vec::new();
        let mut i: usize = 0;
        while i < self.entries.len()
            invariant
                i <= self.entries@.len(),
                pairs == score_pairs(self.entries@),
                out@ == sort_by_score(pairs.take(i as int)),
                out@.len() == i,
            decreases self.entries.len() - i,
        {
            assert(pairs.take(i as int + 1).drop_last() =~= pairs.take(i as int));
            let x = (self.entries[i].query_hash, self.entries[i].performance_score);
            assert(pairs.take(i as int + 1).last() == x);
            let mut j: usize = out.len();
            let mut settled = false;
            while j > 0 && !settled
                invariant
                    j <= out@.len(),
                    forall|k: int| j <= k < out@.len() ==> #[trigger] out@[k].1 < x.1,
                    settled ==> j > 0 && out@[j - 1].1 >= x.1,
                decreases j + if settled {
                    0int
                } else {
                    1int
                },
            {
                if out[j - 1].1 >= x.1 {
                    settled = true;
                } else {
                    j = j - 1;
                }
            }
            proof {
                lemma_insert_by_score_at(out@, x, j as int);
            }
            out.insert(j, x);
            i = i + 1;
        }
        assert(pairs.take(i as int) =~= pairs);
        proof {
            lemma_sort_by_score_len(pairs);
        }
        out.truncate(limit);
        out
    }

    /// Empties the cache, counting its entries as evicted.
    pub fn clear(&mut self)
        ensures
            final(self).wf(),
            final(self)@.entries.len() == 0,
            final(self)@.lru.len() == 0,
            final(self)@.config == old(self)@.config,
            final(self)@.stats == (CacheStats {
                evictions: add_count(old(self)@.stats.evictions, old(self)@.stats.total_entries as int),
                total_entries: 0,
                memory_used_mb: 0,
                ..old(self)@.stats
            }),
    {
        self.entries = Vec::new();
        self.lru_order = Vec::new();
        self.stats.evictions = self.stats.evictions.wrapping_add(self.stats.total_entries as u64);
        self.stats.total_entries = 0;
        self.stats.memory_used_mb = 0;
    }
}

/// A compiled query stored under a hash is given back (a copy of it) by a
/// lookup of that hash made no later than the time to live after the
/// store.
pub proof fn law_stored_query_is_found(
    before: CacheView,
    after: CacheView,
    looked: CacheView,
    h: QueryHash,
    q: CompiledQuery,
    stored_at: u64,
    looked_at: u64,
    r: Option<CompiledQuery>,
)
    requires
        unique_hashes(after.entries),
        store_done(before, after, h, q, stored_at, Ok(())),
        lookup_done(after, looked, h, looked_at, r),
        looked_at <= stored_at + after.config.entry_ttl_seconds,
    ensures
        r matches Some(found) && same_query(found, q),
{
    let m = room_made(before, entry_size(q));
    let c = slot_made(m)->Some_0;
    let i = if has_hash(c.entries, h) {
        hash_index(c.entries, h)
    } else {
        c.entries.len() as int
    };
    if has_hash(c.entries, h) {
        assert(0 <= i < c.entries.len());
    }
    assert(fresh_entry(after.entries[i], h, q, stored_at));
    lemma_hash_index(after.entries, h, i);
}

/// The pairs come from the highest score down.
pub open spec fn score_descending(s: Seq<(QueryHash, u64)>) -> bool {
    forall|i: int, j: int| 0 <= i < j < s.len() ==> #[trigger] s[i].1 >= #[trigger] s[j].1
}

proof fn lemma_insert_by_score_bounded(s: Seq<(QueryHash, u64)>, x: (QueryHash, u64), lo: u64)
    requires
        forall|k: int| 0 <= k < s.len() ==> #[trigger] s[k].1 >= lo,
        x.1 >= lo,
    ensures
        forall|k: int| 0 <= k < insert_by_score(s, x).len() ==> #[trigger] insert_by_score(s, x)[k].1 >= lo,
    decreases s.len(),
{
    lemma_insert_by_score_len(s, x);
    if s.len() > 0 && s.last().1 < x.1 {
        let d = s.drop_last();
        assert forall|k: int| 0 <= k < d.len() implies #[trigger] d[k].1 >= lo by {
            assert(d[k] == s[k]);
        }
        lemma_insert_by_score_bounded(d, x, lo);
        let t = insert_by_score(d, x);
        assert forall|k: int| 0 <= k < t.push(s.last()).len() implies #[trigger] t.push(s.last())[k].1 >= lo by {
            if k < t.len() {
                assert(t.push(s.last())[k] == t[k]);
            }
        }
    } else if s.len() > 0 {
        assert forall|k: int| 0 <= k < s.push(x).len() implies #[trigger] s.push(x)[k].1 >= lo by {
            if k < s.len() {
                assert(s.push(x)[k] == s[k]);
            }
        }
    }
}

proof fn lemma_insert_by_score_descending(s: Seq<(QueryHash, u64)>, x: (QueryHash, u64))
    requires
        score_descending(s),
    ensures
        score_descending(insert_by_score(s, x)),
    decreases s.len(),
{
    if s.len() > 0 {
        let last = s.last();
        let d = s.drop_last();
        assert(score_descending(d)) by {
            assert forall|i: int, j: int| 0 <= i < j < d.len() implies #[trigger] d[i].1 >= #[trigger] d[j].1 by {
                assert(d[i] == s[i] && d[j] == s[j]);
            }
        }
        if last.1 < x.1 {
            lemma_insert_by_score_descending(d, x);
            assert forall|k: int| 0 <= k < d.len() implies #[trigger] d[k].1 >= last.1 by {
                assert(d[k] == s[k]);
                assert(s[k].1 >= s[s.len() - 1].1);
            }
            lemma_insert_by_score_bounded(d, x, last.1);
            let t = insert_by_score(d, x);
            let u = t.push(last);
            assert forall|i: int, j: int| 0 <= i < j < u.len() implies #[trigger] u[i].1 >= #[trigger] u[j].1 by {
                assert(u[i] == t[i]);
                if j < t.len() {
                    assert(u[j] == t[j]);
                }
            }
        } else {
            let u = s.push(x);
            assert forall|i: int, j: int| 0 <= i < j < u.len() implies #[trigger] u[i].1 >= #[trigger] u[j].1 by {
                assert(u[i] == s[i]);
                if j < s.len() {
                    assert(u[j] == s[j]);
                } else {
                    assert(s[i].1 >= s[s.len() - 1].1 || i == s.len() - 1);
                }
            }
        }
    }
}

/// The top performers come from the highest performance score down.
pub proof fn law_top_performers_descending(entries: Seq<CacheEntry>, limit: usize)
    ensures
        score_descending(sort_by_score(score_pairs(entries))),
        limit < entries.len() ==> score_descending(sort_by_score(score_pairs(entries)).take(limit as int)),
{
    lemma_sort_descending(score_pairs(entries));
    let s = sort_by_score(score_pairs(entries));
    let t = s.take(limit as int);
    if limit < entries.len() {
        lemma_sort_by_score_len(score_pairs(entries));
        assert forall|i: int, j: int| 0 <= i < j < t.len() implies #[trigger] t[i].1 >= #[trigger] t[j].1 by {
            assert(t[i] == s[i] && t[j] == s[j]);
        }
    }
}

proof fn lemma_sort_descending(s: Seq<(QueryHash, u64)>)
    ensures
        score_descending(sort_by_score(s)),
    decreases s.len(),
{
    if s.len() > 0 {
        lemma_sort_descending(s.drop_last());
        lemma_insert_by_score_descending(sort_by_score(s.drop_last()), s.last());
    }
}

} // verus!
